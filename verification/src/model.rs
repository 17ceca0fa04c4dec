//! The vocabulary of the benchmark matrix: tiers, modes, directions,
//! capability sets and the expected outcome of a measured search.

use vstd::prelude::*;

use crate::text::same_text;

verus! {

/// How often a query's needle occurs in the corpus it belongs to.
#[derive(Clone, Copy, Debug, PartialEq, Eq, Structural)]
pub enum Tier {
    Never,
    Rare,
    Common,
}

/// The direction of a search; it selects the first component of a name.
#[derive(Clone, Copy, Debug, PartialEq, Eq, Structural)]
pub enum Direction {
    Forward,
    Reverse,
}

/// What a benchmark measures: one search or a count of all matches, each
/// with the construction of the searcher measured or left out.
#[derive(Clone, Copy, Debug, PartialEq, Eq, Structural)]
pub enum Mode {
    Oneshot,
    Prebuilt,
    OneshotIter,
    PrebuiltIter,
}

/// What a search reports, and so what a benchmark expects of it.
#[derive(Clone, Copy, Debug, PartialEq, Eq, Structural)]
pub enum Outcome {
    /// A single search: whether the needle was found.
    Found(bool),
    /// An exhaustive search: how many matches there were.
    Count(usize),
}

impl Tier {
    /// The tier's spelling in a benchmark name.
    pub open spec fn spec_label(self) -> Seq<char> {
        match self {
            Tier::Never => "never"@,
            Tier::Rare => "rare"@,
            Tier::Common => "common"@,
        }
    }

    /// The tier that a text spells, if it spells one.
    pub open spec fn spec_from_label(text: Seq<char>) -> Option<Tier> {
        if text == "never"@ {
            Some(Tier::Never)
        } else if text == "rare"@ {
            Some(Tier::Rare)
        } else if text == "common"@ {
            Some(Tier::Common)
        } else {
            None
        }
    }

    /// The place of the tier in the order in which a catalog is walked.
    pub open spec fn rank(self) -> int {
        match self {
            Tier::Never => 0,
            Tier::Rare => 1,
            Tier::Common => 2,
        }
    }

    /// The tier's spelling in a benchmark name.
    pub fn label(self) -> (text: &'static str)
        ensures
            text@ == self.spec_label(),
    {
        match self {
            Tier::Never => "never",
            Tier::Rare => "rare",
            Tier::Common => "common",
        }
    }

    /// Reads a tier from its spelling.
    pub fn from_label(text: &str) -> (tier: Option<Tier>)
        ensures
            tier == Tier::spec_from_label(text@),
    {
        if same_text(text, "never") {
            Some(Tier::Never)
        } else if same_text(text, "rare") {
            Some(Tier::Rare)
        } else if same_text(text, "common") {
            Some(Tier::Common)
        } else {
            None
        }
    }

    /// Reading a tier's label gives the tier back, and no label holds a
    /// slash or a hyphen.
    pub proof fn lemma_label(self)
        ensures
            Tier::spec_from_label(self.spec_label()) == Some(self),
            !self.spec_label().contains('/'),
            !self.spec_label().contains('-'),
    {
        reveal_strlit("never");
        reveal_strlit("rare");
        reveal_strlit("common");
        let label = self.spec_label();
        assert("never"@.len() == 5 && "rare"@.len() == 4 && "common"@.len() == 6);
        assert forall|i: int| 0 <= i < label.len() implies label[i] != '/' && label[i] != '-' by {
        }
    }
}

impl Direction {
    /// The direction's spelling in a benchmark name.
    pub open spec fn spec_label(self) -> Seq<char> {
        match self {
            Direction::Forward => "memmem"@,
            Direction::Reverse => "memrmem"@,
        }
    }

    /// The direction that a text spells, if it spells one.
    pub open spec fn spec_from_label(text: Seq<char>) -> Option<Direction> {
        if text == "memmem"@ {
            Some(Direction::Forward)
        } else if text == "memrmem"@ {
            Some(Direction::Reverse)
        } else {
            None
        }
    }

    /// The place of the direction in the order of generation.
    pub open spec fn rank(self) -> int {
        match self {
            Direction::Forward => 0,
            Direction::Reverse => 1,
        }
    }

    /// The direction's spelling in a benchmark name.
    pub fn label(self) -> (text: &'static str)
        ensures
            text@ == self.spec_label(),
    {
        match self {
            Direction::Forward => "memmem",
            Direction::Reverse => "memrmem",
        }
    }

    /// Reads a direction from its spelling.
    pub fn from_label(text: &str) -> (direction: Option<Direction>)
        ensures
            direction == Direction::spec_from_label(text@),
    {
        if same_text(text, "memmem") {
            Some(Direction::Forward)
        } else if same_text(text, "memrmem") {
            Some(Direction::Reverse)
        } else {
            None
        }
    }

    /// Reading a direction's label gives the direction back, and no label
    /// holds a slash.
    pub proof fn lemma_label(self)
        ensures
            Direction::spec_from_label(self.spec_label()) == Some(self),
            !self.spec_label().contains('/'),
    {
        reveal_strlit("memmem");
        reveal_strlit("memrmem");
        let label = self.spec_label();
        assert("memmem"@.len() == 6 && "memrmem"@.len() == 7);
        assert forall|i: int| 0 <= i < label.len() implies label[i] != '/' by {
        }
    }
}

impl Mode {
    /// The mode's spelling in a benchmark name.
    pub open spec fn spec_label(self) -> Seq<char> {
        match self {
            Mode::Oneshot => "oneshot"@,
            Mode::Prebuilt => "prebuilt"@,
            Mode::OneshotIter => "oneshotiter"@,
            Mode::PrebuiltIter => "prebuiltiter"@,
        }
    }

    /// The mode that a text spells, if it spells one.
    pub open spec fn spec_from_label(text: Seq<char>) -> Option<Mode> {
        if text == "oneshot"@ {
            Some(Mode::Oneshot)
        } else if text == "prebuilt"@ {
            Some(Mode::Prebuilt)
        } else if text == "oneshotiter"@ {
            Some(Mode::OneshotIter)
        } else if text == "prebuiltiter"@ {
            Some(Mode::PrebuiltIter)
        } else {
            None
        }
    }

    /// The place of the mode in the order of generation.
    pub open spec fn rank(self) -> int {
        match self {
            Mode::Oneshot => 0,
            Mode::Prebuilt => 1,
            Mode::OneshotIter => 2,
            Mode::PrebuiltIter => 3,
        }
    }

    /// The mode measures one search, not a count of all matches.
    pub open spec fn spec_single_shot(self) -> bool {
        self == Mode::Oneshot || self == Mode::Prebuilt
    }

    /// The admission rule: single searches are measured for queries that
    /// match at most once, counts for queries that match more than once.
    pub open spec fn spec_admits(self, count: usize) -> bool {
        if self.spec_single_shot() {
            count <= 1
        } else {
            count > 1
        }
    }

    /// What a correct searcher reports for a query with `count` matches.
    pub open spec fn spec_expected(self, count: usize) -> Outcome {
        if self.spec_single_shot() {
            Outcome::Found(count > 0)
        } else {
            Outcome::Count(count)
        }
    }

    /// The searcher is constructed inside the region that is timed.
    pub open spec fn spec_builds_when_timed(self) -> bool {
        self == Mode::Oneshot || self == Mode::OneshotIter
    }

    /// The mode's spelling in a benchmark name.
    pub fn label(self) -> (text: &'static str)
        ensures
            text@ == self.spec_label(),
    {
        match self {
            Mode::Oneshot => "oneshot",
            Mode::Prebuilt => "prebuilt",
            Mode::OneshotIter => "oneshotiter",
            Mode::PrebuiltIter => "prebuiltiter",
        }
    }

    /// Reads a mode from its spelling.
    pub fn from_label(text: &str) -> (mode: Option<Mode>)
        ensures
            mode == Mode::spec_from_label(text@),
    {
        if same_text(text, "oneshot") {
            Some(Mode::Oneshot)
        } else if same_text(text, "prebuilt") {
            Some(Mode::Prebuilt)
        } else if same_text(text, "oneshotiter") {
            Some(Mode::OneshotIter)
        } else if same_text(text, "prebuiltiter") {
            Some(Mode::PrebuiltIter)
        } else {
            None
        }
    }

    /// Whether the mode measures one search, not a count of all matches.
    pub fn single_shot(self) -> (single: bool)
        ensures
            single == self.spec_single_shot(),
    {
        match self {
            Mode::Oneshot | Mode::Prebuilt => true,
            Mode::OneshotIter | Mode::PrebuiltIter => false,
        }
    }

    /// Decides whether a query with `count` matches is measured in this
    /// mode at all.
    pub fn admits(self, count: usize) -> (admitted: bool)
        ensures
            admitted == self.spec_admits(count),
    {
        if self.single_shot() {
            count <= 1
        } else {
            count > 1
        }
    }

    /// The result that each iteration of a benchmark in this mode must
    /// observe for a query with `count` matches.
    pub fn expected(self, count: usize) -> (outcome: Outcome)
        ensures
            outcome == self.spec_expected(count),
    {
        if self.single_shot() {
            Outcome::Found(count > 0)
        } else {
            Outcome::Count(count)
        }
    }

    /// Whether each timed iteration constructs its searcher anew. Where it
    /// does not, the searcher is built once, before the timed region, and
    /// every iteration uses that one.
    pub fn builds_when_timed(self) -> (timed: bool)
        ensures
            timed == self.spec_builds_when_timed(),
    {
        match self {
            Mode::Oneshot | Mode::OneshotIter => true,
            Mode::Prebuilt | Mode::PrebuiltIter => false,
        }
    }

    /// Reading a mode's label gives the mode back, and no label holds a
    /// slash.
    pub proof fn lemma_label(self)
        ensures
            Mode::spec_from_label(self.spec_label()) == Some(self),
            !self.spec_label().contains('/'),
    {
        reveal_strlit("oneshot");
        reveal_strlit("prebuilt");
        reveal_strlit("oneshotiter");
        reveal_strlit("prebuiltiter");
        let label = self.spec_label();
        assert("oneshot"@.len() == 7 && "prebuilt"@.len() == 8 && "oneshotiter"@.len() == 11
            && "prebuiltiter"@.len() == 12);
        assert forall|i: int| 0 <= i < label.len() implies label[i] != '/' by {
        }
    }

    /// Every count is admitted by exactly one family of modes: a query is
    /// measured by single searches or by counts, never by both and never
    /// by neither.
    pub proof fn lemma_one_family(count: usize)
        ensures
            Mode::Oneshot.spec_admits(count) == Mode::Prebuilt.spec_admits(count),
            Mode::OneshotIter.spec_admits(count) == Mode::PrebuiltIter.spec_admits(count),
            Mode::Oneshot.spec_admits(count) != Mode::OneshotIter.spec_admits(count),
            Mode::Oneshot.spec_admits(count) == (count <= 1),
    {
    }
}

impl Outcome {
    /// Compares what a search reported with what the benchmark expects.
    /// A benchmark whose iteration observes anything else has failed.
    pub fn agrees(self, observed: Outcome) -> (same: bool)
        ensures
            same == (self == observed),
    {
        match (self, observed) {
            (Outcome::Found(expected), Outcome::Found(seen)) => expected == seen,
            (Outcome::Count(expected), Outcome::Count(seen)) => expected == seen,
            _ => false,
        }
    }
}

/// The execution modes and the reverse direction that an implementation
/// supports for one needle.
#[derive(Clone, Copy, Debug, PartialEq, Eq, Structural)]
pub struct Capabilities {
    pub oneshot: bool,
    pub prebuilt: bool,
    pub oneshotiter: bool,
    pub prebuiltiter: bool,
    pub reverse: bool,
}

/// One of the first `upto` tags spells `tag`.
pub open spec fn tagged(tags: Seq<&str>, tag: Seq<char>, upto: int) -> bool {
    exists|i: int| 0 <= i < upto && i < tags.len() && (#[trigger] tags[i])@ == tag
}

impl Capabilities {
    /// The set that the given tags declare. A tag is one of the four mode
    /// labels or `reverse`; any other text declares nothing.
    pub open spec fn spec_from_tags(tags: Seq<&str>) -> Capabilities {
        Capabilities {
            oneshot: tagged(tags, "oneshot"@, tags.len() as int),
            prebuilt: tagged(tags, "prebuilt"@, tags.len() as int),
            oneshotiter: tagged(tags, "oneshotiter"@, tags.len() as int),
            prebuiltiter: tagged(tags, "prebuiltiter"@, tags.len() as int),
            reverse: tagged(tags, "reverse"@, tags.len() as int),
        }
    }

    /// The mode is in the set.
    pub open spec fn spec_has(self, mode: Mode) -> bool {
        match mode {
            Mode::Oneshot => self.oneshot,
            Mode::Prebuilt => self.prebuilt,
            Mode::OneshotIter => self.oneshotiter,
            Mode::PrebuiltIter => self.prebuiltiter,
        }
    }

    /// The mode can be measured in the direction: forward whenever the mode
    /// is in the set, in reverse where `reverse` is in it too.
    pub open spec fn spec_supports(self, mode: Mode, direction: Direction) -> bool {
        self.spec_has(mode) && (direction == Direction::Forward || self.reverse)
    }

    /// The empty set: nothing is measured.
    pub fn none() -> (set: Capabilities)
        ensures
            set == (Capabilities {
                oneshot: false,
                prebuilt: false,
                oneshotiter: false,
                prebuiltiter: false,
                reverse: false,
            }),
    {
        Capabilities {
            oneshot: false,
            prebuilt: false,
            oneshotiter: false,
            prebuiltiter: false,
            reverse: false,
        }
    }

    /// Every mode, in both directions.
    pub fn all() -> (set: Capabilities)
        ensures
            set == (Capabilities {
                oneshot: true,
                prebuilt: true,
                oneshotiter: true,
                prebuiltiter: true,
                reverse: true,
            }),
    {
        Capabilities {
            oneshot: true,
            prebuilt: true,
            oneshotiter: true,
            prebuiltiter: true,
            reverse: true,
        }
    }

    /// Reads a list of tags as a capability set.
    pub fn from_tags(tags: &[&str]) -> (set: Capabilities)
        ensures
            set == Capabilities::spec_from_tags(tags@),
    {
        let mut set = Capabilities::none();
        let mut i: usize = 0;
        while i < tags.len()
            invariant
                i <= tags.len(),
                set.oneshot == tagged(tags@, "oneshot"@, i as int),
                set.prebuilt == tagged(tags@, "prebuilt"@, i as int),
                set.oneshotiter == tagged(tags@, "oneshotiter"@, i as int),
                set.prebuiltiter == tagged(tags@, "prebuiltiter"@, i as int),
                set.reverse == tagged(tags@, "reverse"@, i as int),
            decreases tags.len() - i,
        {
            let tag = tags[i];
            if same_text(tag, "oneshot") {
                set.oneshot = true;
            }
            if same_text(tag, "prebuilt") {
                set.prebuilt = true;
            }
            if same_text(tag, "oneshotiter") {
                set.oneshotiter = true;
            }
            if same_text(tag, "prebuiltiter") {
                set.prebuiltiter = true;
            }
            if same_text(tag, "reverse") {
                set.reverse = true;
            }
            proof {
                assert(tags@[i as int] == tag);
            }
            i = i + 1;
        }
        set
    }

    /// Whether the mode is in the set.
    pub fn has(&self, mode: Mode) -> (present: bool)
        ensures
            present == self.spec_has(mode),
    {
        match mode {
            Mode::Oneshot => self.oneshot,
            Mode::Prebuilt => self.prebuilt,
            Mode::OneshotIter => self.oneshotiter,
            Mode::PrebuiltIter => self.prebuiltiter,
        }
    }

    /// Decides whether a benchmark of the mode can run in the direction.
    /// That it cannot is no error: the combination is left out.
    pub fn supports(&self, mode: Mode, direction: Direction) -> (supported: bool)
        ensures
            supported == self.spec_supports(mode, direction),
    {
        self.has(mode) && match direction {
            Direction::Forward => true,
            Direction::Reverse => self.reverse,
        }
    }
}

} // verus!
