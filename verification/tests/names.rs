use memmem_bench::model::{Direction, Mode, Tier};
use memmem_bench::name::{benchmark_name, decode_name, split_first};

#[test]
fn name_follows_the_grammar() {
    let name = benchmark_name(
        Direction::Forward,
        "krate",
        Mode::Oneshot,
        "subtitles-en",
        Tier::Never,
        "john-watson",
    );
    assert_eq!(name, "memmem/krate/oneshot/subtitles-en/never-john-watson");
}

#[test]
fn name_of_a_reverse_count() {
    let name = benchmark_name(
        Direction::Reverse,
        "krate_nopre",
        Mode::PrebuiltIter,
        "pathological-md5-huge",
        Tier::Common,
        "two-space",
    );
    assert_eq!(name, "memrmem/krate_nopre/prebuiltiter/pathological-md5-huge/common-two-space");
}

#[test]
fn name_spells_every_mode_and_tier() {
    let modes = [
        (Mode::Oneshot, "oneshot"),
        (Mode::Prebuilt, "prebuilt"),
        (Mode::OneshotIter, "oneshotiter"),
        (Mode::PrebuiltIter, "prebuiltiter"),
    ];
    let tiers = [(Tier::Never, "never"), (Tier::Rare, "rare"), (Tier::Common, "common")];
    for (mode, mode_text) in modes {
        for (tier, tier_text) in tiers {
            let name = benchmark_name(Direction::Forward, "i", mode, "x", tier, "q");
            assert_eq!(name, format!("memmem/i/{}/x/{}-q", mode_text, tier_text));
        }
    }
}

#[test]
fn name_escapes_nothing() {
    let name = benchmark_name(Direction::Forward, "a b", Mode::Prebuilt, "", Tier::Rare, "");
    assert_eq!(name, "memmem/a b/prebuilt//rare-");
}

#[test]
fn decode_recovers_the_components() {
    let parts = decode_name("memrmem/bstr/prebuilt/subtitles-ru/rare-sherlock-holmes")
        .expect("a name under the grammar");
    assert_eq!(parts.direction, Direction::Reverse);
    assert_eq!(parts.implementation, "bstr");
    assert_eq!(parts.mode, Mode::Prebuilt);
    assert_eq!(parts.input, "subtitles-ru");
    assert_eq!(parts.tier, Tier::Rare);
    assert_eq!(parts.query, "sherlock-holmes");
}

#[test]
fn decode_round_trips_every_direction_mode_and_tier() {
    let directions = [Direction::Forward, Direction::Reverse];
    let modes = [Mode::Oneshot, Mode::Prebuilt, Mode::OneshotIter, Mode::PrebuiltIter];
    let tiers = [Tier::Never, Tier::Rare, Tier::Common];
    for direction in directions {
        for mode in modes {
            for tier in tiers {
                let name = benchmark_name(direction, "stud", mode, "input-1", tier, "q-1-é");
                let parts = decode_name(&name).expect("a written name reads back");
                assert_eq!(parts.direction, direction);
                assert_eq!(parts.implementation, "stud");
                assert_eq!(parts.mode, mode);
                assert_eq!(parts.input, "input-1");
                assert_eq!(parts.tier, tier);
                assert_eq!(parts.query, "q-1-é");
                let again = benchmark_name(
                    parts.direction,
                    &parts.implementation,
                    parts.mode,
                    &parts.input,
                    parts.tier,
                    &parts.query,
                );
                assert_eq!(again, name);
            }
        }
    }
}

#[test]
fn decode_accepts_empty_components() {
    let parts = decode_name("memmem//oneshot//never-").expect("empty components are components");
    assert_eq!(parts.implementation, "");
    assert_eq!(parts.input, "");
    assert_eq!(parts.query, "");
}

#[test]
fn decode_refuses_what_is_no_name() {
    assert!(decode_name("").is_none());
    assert!(decode_name("memmem").is_none());
    assert!(decode_name("memmem/krate/oneshot/x").is_none());
    assert!(decode_name("memmem/krate/oneshot/x/never").is_none());
    assert!(decode_name("memmem/krate/oneshot/x/never-a/b").is_none());
    assert!(decode_name("memchr/krate/oneshot/x/never-a").is_none());
    assert!(decode_name("memmem/krate/iter-oneshot/x/never-a").is_none());
    assert!(decode_name("memmem/krate/oneshot/x/often-a").is_none());
    assert!(decode_name("memmem/krate/misc/construct-finder/default(len=1)").is_none());
    assert!(decode_name("memmem/krate/misc/frequency-table/custom").is_none());
}

#[test]
fn split_first_splits_at_the_first_mark() {
    assert_eq!(split_first("a/b/c", '/'), Some(("a", "b/c")));
    assert_eq!(split_first("/b", '/'), Some(("", "b")));
    assert_eq!(split_first("a/", '/'), Some(("a", "")));
    assert_eq!(split_first("é-ü-", '-'), Some(("é", "ü-")));
    assert_eq!(split_first("abc", '/'), None);
    assert_eq!(split_first("", '/'), None);
}

#[test]
fn labels_read_back() {
    for direction in [Direction::Forward, Direction::Reverse] {
        assert_eq!(Direction::from_label(direction.label()), Some(direction));
    }
    for mode in [Mode::Oneshot, Mode::Prebuilt, Mode::OneshotIter, Mode::PrebuiltIter] {
        assert_eq!(Mode::from_label(mode.label()), Some(mode));
    }
    for tier in [Tier::Never, Tier::Rare, Tier::Common] {
        assert_eq!(Tier::from_label(tier.label()), Some(tier));
    }
    assert_eq!(Direction::label(Direction::Forward), "memmem");
    assert_eq!(Direction::label(Direction::Reverse), "memrmem");
    assert_eq!(Direction::from_label("reverse"), None);
    assert_eq!(Mode::from_label("misc"), None);
    assert_eq!(Tier::from_label(""), None);
}
