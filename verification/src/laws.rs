//! What holds of every matrix: which points it lists and in what order,
//! that its names identify its benchmarks and read back as written, that a
//! query is measured by one family of modes only, and that nothing runs in
//! reverse without the capability.

use vstd::prelude::*;

use crate::catalog::{
    implementation_names, input_names, query_names, well_named, Implementation, Input,
};
use crate::matrix::{
    expansion, implementation_slice, increasing, input_slice, lexicographic, matrix, mode_slice,
    pass, plans, query_slice, tier_slice, BenchmarkView, Combination, Key, MODES,
};
use crate::model::{Direction, Mode, Tier};
use crate::name::{lemma_decode_text, lemma_direction_prefix, lemma_text_injective, spec_decode};

verus! {

/// The key lies at or after `low` and before `high`.
spec fn between(low: Key, key: Key, high: Key) -> bool {
    !lexicographic(key, low) && lexicographic(key, high)
}

/// The point is generated in one of the modes of the table.
spec fn wanted(
    c: Combination,
    catalog: Seq<Input>,
    implementations: Seq<Implementation>,
    modes: Seq<Mode>,
) -> bool {
    c.generated(catalog, implementations) && modes.contains(c.mode)
}

/// The plan lists the wanted points with keys from `low` up to `high`:
/// each of its entries is the benchmark of such a point, the entries stand
/// in the order of their keys, and no such point is missing.
spec fn lists(
    plan: Seq<BenchmarkView>,
    catalog: Seq<Input>,
    implementations: Seq<Implementation>,
    modes: Seq<Mode>,
    low: Key,
    high: Key,
) -> bool {
    &&& forall|p: int|
        0 <= p < plan.len() ==> wanted(
            (#[trigger] plan[p]).combination(),
            catalog,
            implementations,
            modes,
        ) && plan[p] == plan[p].combination().benchmark(catalog, implementations) && between(
            low,
            plan[p].combination().key(),
            high,
        )
    &&& forall|p: int, q: int|
        0 <= p < q < plan.len() ==> (#[trigger] plan[p]).combination().precedes(
            (#[trigger] plan[q]).combination(),
        )
    &&& forall|c: Combination| #[trigger]
        wanted(c, catalog, implementations, modes) && between(low, c.key(), high)
            ==> plan.contains(c.benchmark(catalog, implementations))
}

/// Two listings of neighbouring stretches of keys, one after the other,
/// list the whole stretch, where no wanted point lies between them or
/// between the second and the end.
proof fn lemma_lists_concat(
    first: Seq<BenchmarkView>,
    second: Seq<BenchmarkView>,
    catalog: Seq<Input>,
    implementations: Seq<Implementation>,
    modes: Seq<Mode>,
    low: Key,
    mid: Key,
    next: Key,
    end: Key,
    high: Key,
)
    requires
        lists(first, catalog, implementations, modes, low, mid),
        lists(second, catalog, implementations, modes, next, end),
        !lexicographic(mid, low),
        !lexicographic(next, mid),
        !lexicographic(end, next),
        !lexicographic(high, end),
        forall|c: Combination| #[trigger]
            wanted(c, catalog, implementations, modes) ==> !between(mid, c.key(), next)
                && !between(end, c.key(), high),
    ensures
        lists(first + second, catalog, implementations, modes, low, high),
{
    let whole = first + second;
    assert forall|p: int| 0 <= p < whole.len() implies wanted(
        (#[trigger] whole[p]).combination(),
        catalog,
        implementations,
        modes,
    ) && whole[p] == whole[p].combination().benchmark(catalog, implementations) && between(
        low,
        whole[p].combination().key(),
        high,
    ) by {
        if p < first.len() {
            assert(whole[p] == first[p]);
        } else {
            assert(whole[p] == second[p - first.len()]);
        }
    }
    assert forall|p: int, q: int| 0 <= p < q < whole.len() implies (#[trigger] whole[p]).combination().precedes(
        (#[trigger] whole[q]).combination(),
    ) by {
        if q < first.len() {
            assert(whole[p] == first[p] && whole[q] == first[q]);
        } else if p < first.len() {
            assert(whole[p] == first[p] && whole[q] == second[q - first.len()]);
        } else {
            assert(whole[p] == second[p - first.len()] && whole[q] == second[q - first.len()]);
        }
    }
    assert forall|c: Combination| #[trigger]
        wanted(c, catalog, implementations, modes) && between(
            low,
            c.key(),
            high,
        ) implies whole.contains(c.benchmark(catalog, implementations)) by {
        let sought = c.benchmark(catalog, implementations);
        if lexicographic(c.key(), mid) {
            assert(first.contains(sought));
            let at = choose|at: int| 0 <= at < first.len() && first[at] == sought;
            assert(whole[at] == sought);
        } else {
            assert(between(next, c.key(), end));
            assert(second.contains(sought));
            let at = choose|at: int| 0 <= at < second.len() && second[at] == sought;
            assert(whole[at + first.len()] == sought);
        }
    }
}

/// The plan with nothing in it lists a stretch that holds no key.
proof fn lemma_lists_nothing(
    catalog: Seq<Input>,
    implementations: Seq<Implementation>,
    modes: Seq<Mode>,
    low: Key,
)
    ensures
        lists(Seq::<BenchmarkView>::empty(), catalog, implementations, modes, low, low),
{
}

/// The key that starts the stretch of one input, tier, query,
/// implementation and mode.
spec fn corner(input: int, tier: int, query: int, implementation: int, mode: int) -> Key {
    Key { input, tier, query, implementation, mode, direction: 0 }
}

/// The rank behind the ranks of the first `upto` modes of the table.
spec fn bound(modes: Seq<Mode>, upto: int) -> int {
    if upto <= 0 {
        0
    } else {
        modes[upto - 1].rank() + 1
    }
}

/// A mode of an increasing table has a rank below the bound of a stretch
/// of the table exactly when it stands in that stretch.
proof fn lemma_bound(modes: Seq<Mode>, upto: int, mode: Mode)
    requires
        increasing(modes),
        0 <= upto <= modes.len(),
        modes.contains(mode),
    ensures
        mode.rank() < bound(modes, upto) ==> exists|at: int| 0 <= at < upto && modes[at] == mode,
        upto < modes.len() && mode.rank() >= bound(modes, upto) ==> mode.rank() >= modes[upto].rank(),
        upto == modes.len() ==> mode.rank() < bound(modes, upto),
{
    let at = choose|at: int| 0 <= at < modes.len() && modes[at] == mode;
    if upto > 0 && at > upto - 1 {
        assert(modes[upto - 1].rank() < modes[at].rank());
    }
    if upto < modes.len() && at < upto {
        if at < upto - 1 {
            assert(modes[at].rank() < modes[upto - 1].rank());
        }
    }
}

/// The benchmarks of one query, one implementation and one mode list the
/// stretch of that mode.
proof fn lemma_mode_slice(
    catalog: Seq<Input>,
    implementations: Seq<Implementation>,
    modes: Seq<Mode>,
    input: int,
    tier: Tier,
    query: int,
    implementation: int,
    mode: Mode,
)
    requires
        modes.contains(mode),
    ensures
        lists(
            mode_slice(catalog, implementations, input, tier, query, implementation, mode),
            catalog,
            implementations,
            modes,
            corner(input, tier.rank(), query, implementation, mode.rank()),
            corner(input, tier.rank(), query, implementation, mode.rank() + 1),
        ),
{
    let forward = Combination {
        input,
        tier,
        query,
        implementation,
        mode,
        direction: Direction::Forward,
    };
    let reverse = Combination {
        input,
        tier,
        query,
        implementation,
        mode,
        direction: Direction::Reverse,
    };
    let low = forward.key();
    let mid = reverse.key();
    let end = Key { direction: 2, ..low };
    let high = corner(input, tier.rank(), query, implementation, mode.rank() + 1);
    let first = forward.emitted(catalog, implementations);
    let second = reverse.emitted(catalog, implementations);
    assert(lists(first, catalog, implementations, modes, low, mid)) by {
        assert forall|c: Combination| #[trigger]
            wanted(c, catalog, implementations, modes) && between(
                low,
                c.key(),
                mid,
            ) implies first.contains(c.benchmark(catalog, implementations)) by {
            assert(c == forward);
            assert(first[0] == c.benchmark(catalog, implementations));
        }
    }
    assert(lists(second, catalog, implementations, modes, mid, end)) by {
        assert forall|c: Combination| #[trigger]
            wanted(c, catalog, implementations, modes) && between(
                mid,
                c.key(),
                end,
            ) implies second.contains(c.benchmark(catalog, implementations)) by {
            assert(c == reverse);
            assert(second[0] == c.benchmark(catalog, implementations));
        }
    }
    lemma_lists_concat(first, second, catalog, implementations, modes, low, mid, mid, end, high);
}

/// The benchmarks of one query and one implementation in the first modes
/// of the table list the stretch up to the bound of those modes.
proof fn lemma_implementation_slice(
    catalog: Seq<Input>,
    implementations: Seq<Implementation>,
    modes: Seq<Mode>,
    input: int,
    tier: Tier,
    query: int,
    implementation: int,
    upto: int,
)
    requires
        increasing(modes),
        0 <= upto <= modes.len(),
    ensures
        lists(
            implementation_slice(
                catalog,
                implementations,
                modes,
                input,
                tier,
                query,
                implementation,
                upto,
            ),
            catalog,
            implementations,
            modes,
            corner(input, tier.rank(), query, implementation, 0),
            corner(input, tier.rank(), query, implementation, bound(modes, upto)),
        ),
    decreases upto,
{
    let low = corner(input, tier.rank(), query, implementation, 0);
    if upto == 0 {
        lemma_lists_nothing(catalog, implementations, modes, low);
    } else {
        let mode = modes[upto - 1];
        assert(modes.contains(mode));
        lemma_implementation_slice(
            catalog,
            implementations,
            modes,
            input,
            tier,
            query,
            implementation,
            upto - 1,
        );
        lemma_mode_slice(catalog, implementations, modes, input, tier, query, implementation, mode);
        let mid = corner(input, tier.rank(), query, implementation, bound(modes, upto - 1));
        let next = corner(input, tier.rank(), query, implementation, mode.rank());
        let high = corner(input, tier.rank(), query, implementation, mode.rank() + 1);
        if upto > 1 {
            assert(modes[upto - 2].rank() < modes[upto - 1].rank());
        }
        assert forall|c: Combination| #[trigger]
            wanted(c, catalog, implementations, modes) implies !between(mid, c.key(), next)
            && !between(high, c.key(), high) by {
            lemma_bound(modes, upto - 1, c.mode);
        }
        lemma_lists_concat(
            implementation_slice(
                catalog,
                implementations,
                modes,
                input,
                tier,
                query,
                implementation,
                upto - 1,
            ),
            mode_slice(catalog, implementations, input, tier, query, implementation, mode),
            catalog,
            implementations,
            modes,
            low,
            mid,
            next,
            high,
            high,
        );
    }
}

/// The benchmarks of one query for the first implementations list the
/// stretch of those implementations.
proof fn lemma_query_slice(
    catalog: Seq<Input>,
    implementations: Seq<Implementation>,
    modes: Seq<Mode>,
    input: int,
    tier: Tier,
    query: int,
    upto: int,
)
    requires
        increasing(modes),
        0 <= upto,
    ensures
        lists(
            query_slice(catalog, implementations, modes, input, tier, query, upto),
            catalog,
            implementations,
            modes,
            corner(input, tier.rank(), query, 0, 0),
            corner(input, tier.rank(), query, upto, 0),
        ),
    decreases upto,
{
    let low = corner(input, tier.rank(), query, 0, 0);
    if upto == 0 {
        lemma_lists_nothing(catalog, implementations, modes, low);
    } else {
        let count = modes.len() as int;
        lemma_query_slice(catalog, implementations, modes, input, tier, query, upto - 1);
        lemma_implementation_slice(
            catalog,
            implementations,
            modes,
            input,
            tier,
            query,
            upto - 1,
            count,
        );
        let mid = corner(input, tier.rank(), query, upto - 1, 0);
        let end = corner(input, tier.rank(), query, upto - 1, bound(modes, count));
        let high = corner(input, tier.rank(), query, upto, 0);
        assert forall|c: Combination| #[trigger]
            wanted(c, catalog, implementations, modes) implies !between(mid, c.key(), mid)
            && !between(end, c.key(), high) by {
            lemma_bound(modes, count, c.mode);
        }
        lemma_lists_concat(
            query_slice(catalog, implementations, modes, input, tier, query, upto - 1),
            implementation_slice(
                catalog,
                implementations,
                modes,
                input,
                tier,
                query,
                upto - 1,
                count,
            ),
            catalog,
            implementations,
            modes,
            low,
            mid,
            mid,
            end,
            high,
        );
    }
}

/// The benchmarks of the first queries of a tier list the stretch of those
/// queries.
proof fn lemma_tier_slice(
    catalog: Seq<Input>,
    implementations: Seq<Implementation>,
    modes: Seq<Mode>,
    input: int,
    tier: Tier,
    upto: int,
)
    requires
        increasing(modes),
        0 <= upto,
    ensures
        lists(
            tier_slice(catalog, implementations, modes, input, tier, upto),
            catalog,
            implementations,
            modes,
            corner(input, tier.rank(), 0, 0, 0),
            corner(input, tier.rank(), upto, 0, 0),
        ),
    decreases upto,
{
    let low = corner(input, tier.rank(), 0, 0, 0);
    if upto == 0 {
        lemma_lists_nothing(catalog, implementations, modes, low);
    } else {
        let count = implementations.len() as int;
        lemma_tier_slice(catalog, implementations, modes, input, tier, upto - 1);
        lemma_query_slice(catalog, implementations, modes, input, tier, upto - 1, count);
        let mid = corner(input, tier.rank(), upto - 1, 0, 0);
        let end = corner(input, tier.rank(), upto - 1, count, 0);
        let high = corner(input, tier.rank(), upto, 0, 0);
        lemma_lists_concat(
            tier_slice(catalog, implementations, modes, input, tier, upto - 1),
            query_slice(catalog, implementations, modes, input, tier, upto - 1, count),
            catalog,
            implementations,
            modes,
            low,
            mid,
            mid,
            end,
            high,
        );
    }
}

/// The benchmarks of one input list the stretch of that input.
proof fn lemma_input_slice(
    catalog: Seq<Input>,
    implementations: Seq<Implementation>,
    modes: Seq<Mode>,
    input: int,
)
    requires
        increasing(modes),
        0 <= input < catalog.len(),
    ensures
        lists(
            input_slice(catalog, implementations, modes, input),
            catalog,
            implementations,
            modes,
            corner(input, 0, 0, 0, 0),
            corner(input + 1, 0, 0, 0, 0),
        ),
{
    let never = catalog[input].never@.len() as int;
    let rare = catalog[input].rare@.len() as int;
    let common = catalog[input].common@.len() as int;
    lemma_tier_slice(catalog, implementations, modes, input, Tier::Never, never);
    lemma_tier_slice(catalog, implementations, modes, input, Tier::Rare, rare);
    lemma_tier_slice(catalog, implementations, modes, input, Tier::Common, common);
    let first = tier_slice(catalog, implementations, modes, input, Tier::Never, never);
    let second = tier_slice(catalog, implementations, modes, input, Tier::Rare, rare);
    let third = tier_slice(catalog, implementations, modes, input, Tier::Common, common);
    lemma_lists_concat(
        first,
        second,
        catalog,
        implementations,
        modes,
        corner(input, 0, 0, 0, 0),
        corner(input, 0, never, 0, 0),
        corner(input, 1, 0, 0, 0),
        corner(input, 1, rare, 0, 0),
        corner(input, 2, 0, 0, 0),
    );
    lemma_lists_concat(
        first + second,
        third,
        catalog,
        implementations,
        modes,
        corner(input, 0, 0, 0, 0),
        corner(input, 2, 0, 0, 0),
        corner(input, 2, 0, 0, 0),
        corner(input, 2, common, 0, 0),
        corner(input + 1, 0, 0, 0, 0),
    );
}

/// The benchmarks of the first inputs list the stretch of those inputs.
proof fn lemma_expansion(
    catalog: Seq<Input>,
    implementations: Seq<Implementation>,
    modes: Seq<Mode>,
    upto: int,
)
    requires
        increasing(modes),
        0 <= upto <= catalog.len(),
    ensures
        lists(
            expansion(catalog, implementations, modes, upto),
            catalog,
            implementations,
            modes,
            corner(0, 0, 0, 0, 0),
            corner(upto, 0, 0, 0, 0),
        ),
    decreases upto,
{
    let low = corner(0, 0, 0, 0, 0);
    if upto == 0 {
        lemma_lists_nothing(catalog, implementations, modes, low);
    } else {
        lemma_expansion(catalog, implementations, modes, upto - 1);
        lemma_input_slice(catalog, implementations, modes, upto - 1);
        let mid = corner(upto - 1, 0, 0, 0, 0);
        let high = corner(upto, 0, 0, 0, 0);
        lemma_lists_concat(
            expansion(catalog, implementations, modes, upto - 1),
            input_slice(catalog, implementations, modes, upto - 1),
            catalog,
            implementations,
            modes,
            low,
            mid,
            mid,
            high,
            high,
        );
    }
}

/// What the driver plans for a table of modes in the order of their ranks
/// is exactly the generated points of those modes, each once, in the order
/// of generation.
pub proof fn lemma_expansion_plans(
    catalog: Seq<Input>,
    implementations: Seq<Implementation>,
    modes: Seq<Mode>,
)
    requires
        increasing(modes),
    ensures
        plans(
            expansion(catalog, implementations, modes, catalog.len() as int),
            catalog,
            implementations,
            modes,
        ),
{
    let count = catalog.len() as int;
    let plan = expansion(catalog, implementations, modes, count);
    lemma_expansion(catalog, implementations, modes, count);
    assert forall|c: Combination| #[trigger]
        c.generated(catalog, implementations) && modes.contains(c.mode) implies plan.contains(
        c.benchmark(catalog, implementations),
    ) by {
        assert(wanted(c, catalog, implementations, modes));
        assert(between(corner(0, 0, 0, 0, 0), c.key(), corner(count, 0, 0, 0, 0)));
    }
}

/// The table of all modes stands in the order of the ranks and holds every
/// mode.
pub proof fn lemma_modes()
    ensures
        increasing(MODES@),
        forall|mode: Mode| MODES@.contains(mode),
{
    assert(MODES@.len() == 4);
    assert forall|mode: Mode| MODES@.contains(mode) by {
        assert(MODES@[mode.rank()] == mode);
    }
}

/// The matrix is exactly the generated points, each once, in the order of
/// generation.
pub proof fn lemma_matrix_plans(catalog: Seq<Input>, implementations: Seq<Implementation>)
    ensures
        plans(matrix(catalog, implementations), catalog, implementations, MODES@),
{
    lemma_modes();
    lemma_expansion_plans(catalog, implementations, MODES@);
}

/// The plan of one mode holds exactly the benchmarks of the matrix that
/// are of that mode.
pub proof fn lemma_pass_of_matrix(
    catalog: Seq<Input>,
    implementations: Seq<Implementation>,
    mode: Mode,
)
    ensures
        forall|entry: BenchmarkView|
            #![trigger pass(catalog, implementations, mode).contains(entry)]
            #![trigger matrix(catalog, implementations).contains(entry)]
            pass(catalog, implementations, mode).contains(entry) <==> matrix(
                catalog,
                implementations,
            ).contains(entry) && entry.mode == mode,
{
    let modes = seq![mode];
    let part = pass(catalog, implementations, mode);
    let whole = matrix(catalog, implementations);
    lemma_expansion_plans(catalog, implementations, modes);
    lemma_matrix_plans(catalog, implementations);
    assert(modes.contains(mode)) by {
        assert(modes[0] == mode);
    }
    assert forall|entry: BenchmarkView|
        part.contains(entry) <==> whole.contains(entry) && entry.mode == mode by {
        if part.contains(entry) {
            let at = choose|at: int| 0 <= at < part.len() && part[at] == entry;
            assert(part[at].combination().generated(catalog, implementations));
            assert(modes.contains(part[at].mode));
            assert(whole.contains(entry.combination().benchmark(catalog, implementations)));
        }
        if whole.contains(entry) && entry.mode == mode {
            let at = choose|at: int| 0 <= at < whole.len() && whole[at] == entry;
            assert(whole[at].combination().generated(catalog, implementations));
            assert(part.contains(entry.combination().benchmark(catalog, implementations)));
        }
    }
}

/// In a well-named catalog the name of a point reads back as the point's
/// own components: its direction, implementation, mode, input, tier and
/// query.
pub proof fn lemma_name_reads_back(
    catalog: Seq<Input>,
    implementations: Seq<Implementation>,
    c: Combination,
)
    requires
        well_named(catalog, implementations),
        c.in_range(catalog, implementations),
    ensures
        c.parts(catalog, implementations).well_formed(),
        spec_decode(c.benchmark(catalog, implementations).name) == Some(
            c.parts(catalog, implementations),
        ),
{
    let queries = catalog[c.input].spec_queries(c.tier);
    assert(input_names(catalog)[c.input] == catalog[c.input].name@);
    assert(implementation_names(implementations)[c.implementation]
        == implementations[c.implementation].name@);
    assert(query_names(queries)[c.query] == queries[c.query].name@);
    lemma_decode_text(c.parts(catalog, implementations));
}

/// In a well-named catalog no two points share a name.
pub proof fn lemma_names_tell_points_apart(
    catalog: Seq<Input>,
    implementations: Seq<Implementation>,
    a: Combination,
    b: Combination,
)
    requires
        well_named(catalog, implementations),
        a.in_range(catalog, implementations),
        b.in_range(catalog, implementations),
        a != b,
    ensures
        a.benchmark(catalog, implementations).name != b.benchmark(catalog, implementations).name,
{
    let first = a.parts(catalog, implementations);
    let second = b.parts(catalog, implementations);
    lemma_name_reads_back(catalog, implementations, a);
    lemma_name_reads_back(catalog, implementations, b);
    if first.text() == second.text() {
        lemma_text_injective(first, second);
        assert(input_names(catalog)[a.input] == catalog[a.input].name@);
        assert(input_names(catalog)[b.input] == catalog[b.input].name@);
        assert(a.input == b.input);
        assert(implementation_names(implementations)[a.implementation]
            == implementations[a.implementation].name@);
        assert(implementation_names(implementations)[b.implementation]
            == implementations[b.implementation].name@);
        assert(a.implementation == b.implementation);
        let queries = catalog[a.input].spec_queries(a.tier);
        assert(query_names(queries)[a.query] == queries[a.query].name@);
        assert(query_names(queries)[b.query] == queries[b.query].name@);
        assert(a.query == b.query);
        assert(false);
    }
}

/// A plan of a well-named catalog holds no name twice.
pub proof fn lemma_names_unique(
    plan: Seq<BenchmarkView>,
    catalog: Seq<Input>,
    implementations: Seq<Implementation>,
    modes: Seq<Mode>,
)
    requires
        plans(plan, catalog, implementations, modes),
        well_named(catalog, implementations),
    ensures
        forall|p: int, q: int|
            0 <= p < q < plan.len() ==> (#[trigger] plan[p]).name != (#[trigger] plan[q]).name,
{
    assert forall|p: int, q: int| 0 <= p < q < plan.len() implies (#[trigger] plan[p]).name != (
    #[trigger] plan[q]).name by {
        let a = plan[p].combination();
        let b = plan[q].combination();
        assert(a.precedes(b));
        lemma_names_tell_points_apart(catalog, implementations, a, b);
    }
}

/// Every name of a plan of a well-named catalog reads back as the
/// components of the benchmark that bears it: the direction, the name of
/// the implementation, the mode, the name of the input, the tier and the
/// name of the query.
pub proof fn lemma_names_read_back(
    plan: Seq<BenchmarkView>,
    catalog: Seq<Input>,
    implementations: Seq<Implementation>,
    modes: Seq<Mode>,
)
    requires
        plans(plan, catalog, implementations, modes),
        well_named(catalog, implementations),
    ensures
        forall|p: int|
            0 <= p < plan.len() ==> spec_decode((#[trigger] plan[p]).name) == Some(
                plan[p].combination().parts(catalog, implementations),
            ),
{
    assert forall|p: int| 0 <= p < plan.len() implies spec_decode((#[trigger] plan[p]).name)
        == Some(plan[p].combination().parts(catalog, implementations)) by {
        lemma_name_reads_back(catalog, implementations, plan[p].combination());
    }
}

/// In a plan, a query that matches at most once is measured by single
/// searches only, one that matches more often by counts only; so no query
/// has benchmarks of both families.
pub proof fn lemma_one_family_per_query(
    plan: Seq<BenchmarkView>,
    catalog: Seq<Input>,
    implementations: Seq<Implementation>,
    modes: Seq<Mode>,
)
    requires
        plans(plan, catalog, implementations, modes),
    ensures
        forall|p: int|
            0 <= p < plan.len() ==> (#[trigger] plan[p]).mode.spec_single_shot() == (
            plan[p].combination().query_of(catalog).count <= 1),
        forall|p: int, q: int|
            0 <= p < plan.len() && 0 <= q < plan.len() && (#[trigger] plan[p]).input == (
            #[trigger] plan[q]).input && plan[p].tier == plan[q].tier && plan[p].query
                == plan[q].query ==> plan[p].mode.spec_single_shot()
                == plan[q].mode.spec_single_shot(),
{
}

/// In a plan, a benchmark runs in reverse only where the implementation
/// declares the reverse direction for the needle: where it does not, the
/// plan holds no reverse benchmark of that implementation and that query,
/// and so no name of theirs that begins with `memrmem/`.
pub proof fn lemma_reverse_is_declared(
    plan: Seq<BenchmarkView>,
    catalog: Seq<Input>,
    implementations: Seq<Implementation>,
    modes: Seq<Mode>,
)
    requires
        plans(plan, catalog, implementations, modes),
    ensures
        forall|p: int|
            0 <= p < plan.len() && (#[trigger] plan[p]).direction == Direction::Reverse
                ==> implementations[plan[p].implementation].spec_available(
                plan[p].combination().query_of(catalog).needle@,
            ).reverse,
        forall|p: int|
            0 <= p < plan.len() && "memrmem/"@.is_prefix_of((#[trigger] plan[p]).name)
                ==> implementations[plan[p].implementation].spec_available(
                plan[p].combination().query_of(catalog).needle@,
            ).reverse,
{
    assert forall|p: int|
        0 <= p < plan.len() && "memrmem/"@.is_prefix_of(
            (#[trigger] plan[p]).name,
        ) implies implementations[plan[p].implementation].spec_available(
        plan[p].combination().query_of(catalog).needle@,
    ).reverse by {
        lemma_direction_prefix(plan[p].combination().parts(catalog, implementations));
    }
}

/// Every benchmark of a plan expects what its mode asks of its query's
/// count: whether there is a match at all, or the count itself.
pub proof fn lemma_expected_outcome(
    plan: Seq<BenchmarkView>,
    catalog: Seq<Input>,
    implementations: Seq<Implementation>,
    modes: Seq<Mode>,
)
    requires
        plans(plan, catalog, implementations, modes),
    ensures
        forall|p: int|
            0 <= p < plan.len() ==> (#[trigger] plan[p]).expected == plan[p].mode.spec_expected(
                plan[p].combination().query_of(catalog).count,
            ),
{
}

} // verus!
