use memmem_bench::catalog::Implementation;
use memmem_bench::model::{Capabilities, Direction, Mode, Outcome};
use memmem_bench::text::{same_bytes, same_text};

const MODES: [Mode; 4] = [Mode::Oneshot, Mode::Prebuilt, Mode::OneshotIter, Mode::PrebuiltIter];

#[test]
fn single_searches_are_for_at_most_one_match() {
    for mode in [Mode::Oneshot, Mode::Prebuilt] {
        assert!(mode.single_shot());
        assert!(mode.admits(0));
        assert!(mode.admits(1));
        assert!(!mode.admits(2));
        assert!(!mode.admits(usize::MAX));
    }
}

#[test]
fn counts_are_for_more_than_one_match() {
    for mode in [Mode::OneshotIter, Mode::PrebuiltIter] {
        assert!(!mode.single_shot());
        assert!(!mode.admits(0));
        assert!(!mode.admits(1));
        assert!(mode.admits(2));
        assert!(mode.admits(usize::MAX));
    }
}

#[test]
fn every_count_has_exactly_one_family() {
    for count in [0usize, 1, 2, 3, 17, usize::MAX] {
        let single = Mode::Oneshot.admits(count);
        let counted = Mode::OneshotIter.admits(count);
        assert_ne!(single, counted);
        assert_eq!(Mode::Prebuilt.admits(count), single);
        assert_eq!(Mode::PrebuiltIter.admits(count), counted);
    }
}

#[test]
fn expected_outcome_of_each_mode() {
    assert_eq!(Mode::Oneshot.expected(0), Outcome::Found(false));
    assert_eq!(Mode::Oneshot.expected(1), Outcome::Found(true));
    assert_eq!(Mode::Prebuilt.expected(0), Outcome::Found(false));
    assert_eq!(Mode::Prebuilt.expected(1), Outcome::Found(true));
    assert_eq!(Mode::OneshotIter.expected(2), Outcome::Count(2));
    assert_eq!(Mode::PrebuiltIter.expected(513), Outcome::Count(513));
}

#[test]
fn outcome_agrees_only_with_itself() {
    assert!(Outcome::Found(true).agrees(Outcome::Found(true)));
    assert!(Outcome::Found(false).agrees(Outcome::Found(false)));
    assert!(!Outcome::Found(true).agrees(Outcome::Found(false)));
    assert!(Outcome::Count(3).agrees(Outcome::Count(3)));
    assert!(!Outcome::Count(3).agrees(Outcome::Count(4)));
    assert!(!Outcome::Count(1).agrees(Outcome::Found(true)));
    assert!(!Outcome::Found(false).agrees(Outcome::Count(0)));
}

#[test]
fn construction_is_timed_in_oneshot_modes_only() {
    assert!(Mode::Oneshot.builds_when_timed());
    assert!(Mode::OneshotIter.builds_when_timed());
    assert!(!Mode::Prebuilt.builds_when_timed());
    assert!(!Mode::PrebuiltIter.builds_when_timed());
}

#[test]
fn capabilities_from_tags() {
    let all = Capabilities::from_tags(&[
        "reverse",
        "oneshot",
        "prebuilt",
        "oneshotiter",
        "prebuiltiter",
    ]);
    assert_eq!(all, Capabilities::all());
    assert_eq!(Capabilities::from_tags(&[]), Capabilities::none());
    let some = Capabilities::from_tags(&["oneshot", "oneshotiter", "unknown", "oneshot"]);
    assert_eq!(
        some,
        Capabilities {
            oneshot: true,
            prebuilt: false,
            oneshotiter: true,
            prebuiltiter: false,
            reverse: false,
        }
    );
    let only_reverse = Capabilities::from_tags(&["reverse"]);
    assert!(only_reverse.reverse);
    for mode in MODES {
        assert!(!only_reverse.has(mode));
    }
}

#[test]
fn reverse_needs_the_mode_and_the_reverse_tag() {
    let forward_only = Capabilities::from_tags(&["oneshot", "prebuilt"]);
    assert!(forward_only.supports(Mode::Oneshot, Direction::Forward));
    assert!(!forward_only.supports(Mode::Oneshot, Direction::Reverse));
    assert!(!forward_only.supports(Mode::OneshotIter, Direction::Forward));
    let both = Capabilities::from_tags(&["oneshot", "reverse"]);
    assert!(both.supports(Mode::Oneshot, Direction::Forward));
    assert!(both.supports(Mode::Oneshot, Direction::Reverse));
    assert!(!both.supports(Mode::Prebuilt, Direction::Forward));
    assert!(!both.supports(Mode::Prebuilt, Direction::Reverse));
    for mode in MODES {
        for direction in [Direction::Forward, Direction::Reverse] {
            assert!(Capabilities::all().supports(mode, direction));
            assert!(!Capabilities::none().supports(mode, direction));
        }
    }
}

#[test]
fn availability_depends_on_the_needle() {
    let text_only = Capabilities::from_tags(&["oneshot", "oneshotiter", "reverse"]);
    let mut stud = Implementation::new("stud", text_only);
    assert_eq!(stud.name, "stud");
    assert_eq!(stud.available(b"abc"), text_only);
    stud.declare(vec![0xff, 0xfe], Capabilities::none());
    assert_eq!(stud.available(&[0xff, 0xfe]), Capabilities::none());
    assert_eq!(stud.available(&[0xff]), text_only);
    assert_eq!(stud.available(b"abc"), text_only);
    assert_eq!(stud.available(b""), text_only);
}

#[test]
fn the_latest_declaration_holds() {
    let mut imp = Implementation::new("imp", Capabilities::none());
    imp.declare(b"a".to_vec(), Capabilities::from_tags(&["oneshot"]));
    imp.declare(b"b".to_vec(), Capabilities::from_tags(&["prebuilt"]));
    imp.declare(b"a".to_vec(), Capabilities::all());
    assert_eq!(imp.available(b"a"), Capabilities::all());
    assert_eq!(imp.available(b"b"), Capabilities::from_tags(&["prebuilt"]));
    assert_eq!(imp.available(b"c"), Capabilities::none());
    assert_eq!(imp.declared.len(), 3);
}

#[test]
fn same_bytes_and_same_text() {
    assert!(same_bytes(b"", b""));
    assert!(same_bytes(b"abc", b"abc"));
    assert!(!same_bytes(b"abc", b"abd"));
    assert!(!same_bytes(b"abc", b"ab"));
    assert!(!same_bytes(b"", b"a"));
    assert!(same_text("never", "never"));
    assert!(!same_text("never", "nevel"));
    assert!(!same_text("never", "neve"));
}
