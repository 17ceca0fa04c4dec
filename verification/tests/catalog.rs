use std::collections::HashSet;

use memmem_bench::catalog::{is_slash_free, is_well_named, Implementation, Input, Query};
use memmem_bench::matrix::searches;
use memmem_bench::model::{Capabilities, Tier};
use memmem_bench::truth::{is_counted, is_truthful};

fn named(name: &str) -> Query {
    Query { name: name.to_string(), needle: name.as_bytes().to_vec(), count: 0 }
}

fn entry(name: &str, never: &[&str], rare: &[&str], common: &[&str]) -> Input {
    Input {
        name: name.to_string(),
        corpus: Vec::new(),
        never: never.iter().map(|name| named(name)).collect(),
        rare: rare.iter().map(|name| named(name)).collect(),
        common: common.iter().map(|name| named(name)).collect(),
    }
}

fn set(names: &[&str]) -> Vec<Implementation> {
    names.iter().map(|name| Implementation::new(name, Capabilities::all())).collect()
}

#[test]
fn slash_free_texts() {
    assert!(is_slash_free(""));
    assert!(is_slash_free("subtitles-en"));
    assert!(is_slash_free("back\\slash"));
    assert!(!is_slash_free("/"));
    assert!(!is_slash_free("a/b"));
    assert!(!is_slash_free("trailing/"));
}

#[test]
fn queries_of_a_tier() {
    let input = entry("x", &["a", "b"], &[], &["c"]);
    assert_eq!(input.queries(Tier::Never).len(), 2);
    assert_eq!(input.queries(Tier::Never)[1].name, "b");
    assert!(input.queries(Tier::Rare).is_empty());
    assert_eq!(input.queries(Tier::Common)[0].name, "c");
}

#[test]
fn a_well_named_catalog() {
    let catalog = vec![
        entry("x", &["a", "b"], &["a"], &["a", "c"]),
        entry("y", &["a"], &[], &["b"]),
    ];
    assert!(is_well_named(&catalog, &set(&["krate", "stud"])));
    assert!(is_well_named(&Vec::new(), &Vec::new()));
    assert!(is_well_named(&catalog, &Vec::new()));
}

#[test]
fn a_query_name_may_recur_in_another_tier_or_input() {
    let catalog = vec![entry("x", &["q"], &["q"], &["q"]), entry("y", &["q"], &["q"], &["q"])];
    let implementations = set(&["krate"]);
    assert!(is_well_named(&catalog, &implementations));
    let plan = searches(&catalog, &implementations);
    let names: HashSet<&str> = plan.iter().map(|benchmark| benchmark.name.as_str()).collect();
    assert_eq!(plan.len(), 24);
    assert_eq!(names.len(), 24);
}

#[test]
fn shared_names_are_not_well_named() {
    let implementations = set(&["krate"]);
    assert!(!is_well_named(&vec![entry("x", &[], &[], &[]), entry("x", &[], &[], &[])], &implementations));
    assert!(!is_well_named(&vec![entry("x", &["a", "b", "a"], &[], &[])], &implementations));
    assert!(!is_well_named(&vec![entry("x", &[], &["a", "a"], &[])], &implementations));
    assert!(!is_well_named(
        &vec![entry("x", &[], &[], &[]), entry("y", &[], &[], &["a", "b", "b"])],
        &implementations
    ));
    assert!(!is_well_named(&vec![entry("x", &[], &[], &[])], &set(&["krate", "stud", "krate"])));
}

#[test]
fn names_with_a_slash_are_not_well_named() {
    let implementations = set(&["krate"]);
    assert!(!is_well_named(&vec![entry("x/y", &[], &[], &[])], &implementations));
    assert!(!is_well_named(&vec![entry("x", &["a/b"], &[], &[])], &implementations));
    assert!(!is_well_named(&vec![entry("x", &[], &[], &["/"])], &implementations));
    assert!(!is_well_named(&vec![entry("x", &[], &[], &[])], &set(&["kra/te"])));
}

#[test]
fn a_slash_in_a_name_can_make_two_names_one() {
    let catalog = vec![
        entry("x", &["b/never-c"], &[], &[]),
        entry("x/never-b", &["c"], &[], &[]),
    ];
    let implementations = vec![Implementation::new("i", Capabilities::from_tags(&["oneshot"]))];
    assert!(!is_well_named(&catalog, &implementations));
    let plan = searches(&catalog, &implementations);
    assert_eq!(plan.len(), 2);
    assert_eq!(plan[0].name, "memmem/i/oneshot/x/never-b/never-c");
    assert_eq!(plan[1].name, "memmem/i/oneshot/x/never-b/never-c");
}

#[test]
fn counts_are_checked_against_the_corpus() {
    let corpus = b"aaab";
    let counted = |needle: &[u8], count: usize| {
        is_counted(&Query { name: "q".to_string(), needle: needle.to_vec(), count }, corpus)
    };
    assert!(counted(b"a", 3));
    assert!(!counted(b"a", 2));
    assert!(counted(b"aa", 1));
    assert!(counted(b"b", 1));
    assert!(counted(b"z", 0));
    assert!(!counted(b"z", 1));
    assert!(counted(b"aaab", 1));
    assert!(counted(b"aaabb", 0));
    assert!(counted(b"", 5));

    let query = |name: &str, needle: &[u8], count: usize| Query {
        name: name.to_string(),
        needle: needle.to_vec(),
        count,
    };
    let mut input = Input {
        name: "x".to_string(),
        corpus: corpus.to_vec(),
        never: vec![query("z", b"z", 0)],
        rare: vec![query("b", b"b", 1), query("ab", b"ab", 1)],
        common: vec![query("a", b"a", 3)],
    };
    assert!(is_truthful(&input));
    input.common.push(query("aa", b"aa", 2));
    assert!(!is_truthful(&input));
    input.common.pop();
    input.never[0].count = 1;
    assert!(!is_truthful(&input));
    input.never.clear();
    input.rare[1].count = 0;
    assert!(!is_truthful(&input));
    input.rare.clear();
    input.common.clear();
    assert!(is_truthful(&input));
}
