use memchr::arch::all::packedpair::HeuristicFrequencyRank;
use memchr::memmem::FinderBuilder;

use memmem_bench::misc::{byte_frequencies, finder_construction, misc};
use memmem_bench::rank::{Hfrx86, RANKS};
use memmem_bench::search::{build_finder, finds_exactly, Ranking};
use memmem_bench::text::decimal;

/// The ranking for executable files with the rank of one byte changed.
struct Mutated {
    byte: u8,
    rank: u8,
}

impl HeuristicFrequencyRank for Mutated {
    fn rank(&self, byte: u8) -> u8 {
        if byte == self.byte {
            self.rank
        } else {
            Hfrx86.rank(byte)
        }
    }
}

#[test]
fn decimal_writes_numbers() {
    assert_eq!(decimal(0), "0");
    assert_eq!(decimal(1), "1");
    assert_eq!(decimal(9), "9");
    assert_eq!(decimal(10), "10");
    assert_eq!(decimal(16), "16");
    assert_eq!(decimal(105), "105");
    assert_eq!(decimal(9_990), "9990");
    assert_eq!(decimal(usize::MAX), usize::MAX.to_string());
}

#[test]
fn construction_benchmarks() {
    let plan = finder_construction();
    let names: Vec<&str> = plan.iter().map(|entry| entry.name.as_str()).collect();
    assert_eq!(
        names,
        vec![
            "memmem/krate/misc/construct-finder/default(len=1)",
            "memmem/krate/misc/construct-finder/custom(len=1)",
            "memmem/krate/misc/construct-finder/default(len=4)",
            "memmem/krate/misc/construct-finder/custom(len=4)",
            "memmem/krate/misc/construct-finder/default(len=16)",
            "memmem/krate/misc/construct-finder/custom(len=16)",
        ]
    );
    let needles: [&[u8]; 3] = [b"a", b"abcd", b"abcdefgh12345678"];
    for (k, entry) in plan.iter().enumerate() {
        assert_eq!(entry.needle, needles[k / 2]);
        assert_eq!(entry.corpus, needles[k / 2]);
        assert_eq!(entry.ranking, if k % 2 == 0 { Ranking::Default } else { Ranking::Custom });
        assert!(entry.builds_when_timed);
        assert_eq!(entry.expected, None);
    }
}

#[test]
fn frequency_benchmarks() {
    let executable = vec![1u8, 2, 3, 0, 0, 0xdd, 0xdd, b'\'', 4];
    let plan = byte_frequencies(&executable);
    assert_eq!(plan.len(), 2);
    assert_eq!(plan[0].name, "memmem/krate/misc/frequency-table/default");
    assert_eq!(plan[1].name, "memmem/krate/misc/frequency-table/custom");
    assert_eq!(plan[0].ranking, Ranking::Default);
    assert_eq!(plan[1].ranking, Ranking::Custom);
    for entry in &plan {
        assert_eq!(entry.corpus, executable);
        assert_eq!(entry.needle, b"\x00\x00\xdd\xdd'");
        assert!(!entry.builds_when_timed);
        assert_eq!(entry.expected, Some(1));
        let finder = build_finder(&entry.needle, entry.ranking);
        assert!(finds_exactly(&finder, &entry.corpus, 1));
    }
}

#[test]
fn misc_is_construction_then_frequencies() {
    let plan = misc(b"xyz");
    assert_eq!(plan.len(), 8);
    assert_eq!(plan[5].name, "memmem/krate/misc/construct-finder/custom(len=16)");
    assert_eq!(plan[6].name, "memmem/krate/misc/frequency-table/default");
    assert_eq!(plan[7].name, "memmem/krate/misc/frequency-table/custom");
    assert_eq!(plan[7].corpus, b"xyz");
}

#[test]
fn rank_reads_the_table() {
    let ranking = Hfrx86;
    assert_eq!(ranking.rank(0x00), 255);
    assert_eq!(ranking.rank(0x01), 128);
    assert_eq!(ranking.rank(0x0f), 89);
    assert_eq!(ranking.rank(0x48), 254);
    assert_eq!(ranking.rank(0x8b), 186);
    assert_eq!(ranking.rank(0x8f), 2);
    assert_eq!(ranking.rank(0x90), 15);
    assert_eq!(ranking.rank(0xdd), 0);
    assert_eq!(ranking.rank(0x27), 4);
    assert_eq!(ranking.rank(0xfe), 13);
    assert_eq!(ranking.rank(0xff), 175);
    for byte in 0..=255u8 {
        assert_eq!(ranking.rank(byte), RANKS[byte as usize]);
        assert_eq!(HeuristicFrequencyRank::rank(&ranking, byte), RANKS[byte as usize]);
    }
    let total: u32 = RANKS.iter().map(|&rank| rank as u32).sum();
    assert_eq!(total, 4385);
}

#[test]
fn a_finder_counts_occurrences_that_do_not_overlap() {
    for ranking in [Ranking::Default, Ranking::Custom] {
        let finder = build_finder(b"a", ranking);
        assert!(finds_exactly(&finder, b"aaab", 3));
        assert!(!finds_exactly(&finder, b"aaab", 1));
        assert!(!finds_exactly(&finder, b"aaab", 4));
        assert!(finds_exactly(&finder, b"", 0));
        let finder = build_finder(b"aa", ranking);
        assert!(finds_exactly(&finder, b"aaaaa", 2));
        assert!(finds_exactly(&finder, b"aaaa", 2));
        assert!(finds_exactly(&finder, b"abab", 0));
        let finder = build_finder(b"foo", ranking);
        assert!(finds_exactly(&finder, b"foo bar foo baz foo", 3));
        let finder = build_finder(b"z", ranking);
        assert!(finds_exactly(&finder, b"aaab", 0));
        assert!(!finds_exactly(&finder, b"aaab", 1));
    }
}

#[test]
fn the_empty_needle_is_found_at_every_position() {
    for ranking in [Ranking::Default, Ranking::Custom] {
        let finder = build_finder(b"", ranking);
        assert!(finds_exactly(&finder, b"", 1));
        assert!(finds_exactly(&finder, b"abc", 4));
    }
}

#[test]
fn a_finder_keeps_its_needle() {
    for ranking in [Ranking::Default, Ranking::Custom] {
        let finder = build_finder(b"\x00\x00\xdd\xdd'", ranking);
        assert_eq!(finder.needle(), b"\x00\x00\xdd\xdd'");
    }
}

#[test]
fn the_ranking_does_not_change_what_is_found() {
    let needle = b"\x00\x00\xdd\xdd'";
    let mut corpus = Vec::new();
    for round in 0..40u32 {
        for byte in 0..=255u8 {
            corpus.push(byte.wrapping_mul(7).wrapping_add(round as u8));
        }
        corpus.extend_from_slice(&[0, 0, 0xdd]);
        if round % 8 == 3 {
            corpus.extend_from_slice(needle);
        }
    }
    let default = build_finder(needle, Ranking::Default);
    let custom = build_finder(needle, Ranking::Custom);
    assert!(finds_exactly(&default, &corpus, 5));
    assert!(finds_exactly(&custom, &corpus, 5));
    for byte in [0x00u8, 0xdd, b'\'', 0x41] {
        for rank in [0u8, 1, 128, 255] {
            let mutated =
                FinderBuilder::new().build_forward_with_ranker(Mutated { byte, rank }, needle);
            assert!(finds_exactly(&mutated, &corpus, 5));
            assert!(!finds_exactly(&mutated, &corpus, 4));
        }
    }
}
