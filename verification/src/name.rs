//! Benchmark names: the fixed grammar
//! `{direction}/{implementation}/{mode}/{input}/{tier}-{query}`, the
//! function that writes a name and the one that reads it back.

use vstd::prelude::*;

use crate::model::{Direction, Mode, Tier};

verus! {

/// The six components that identify a benchmark.
#[derive(Clone, Debug)]
pub struct NameParts {
    pub direction: Direction,
    pub implementation: String,
    pub mode: Mode,
    pub input: String,
    pub tier: Tier,
    pub query: String,
}

/// The components of a name as plain values.
pub struct NameView {
    pub direction: Direction,
    pub implementation: Seq<char>,
    pub mode: Mode,
    pub input: Seq<char>,
    pub tier: Tier,
    pub query: Seq<char>,
}

impl View for NameParts {
    type V = NameView;

    open spec fn view(&self) -> NameView {
        NameView {
            direction: self.direction,
            implementation: self.implementation@,
            mode: self.mode,
            input: self.input@,
            tier: self.tier,
            query: self.query@,
        }
    }
}

/// The text holds no slash, so it can stand as one component of a name.
pub open spec fn slash_free(text: Seq<char>) -> bool {
    !text.contains('/')
}

/// The first index at or after `from` at which `text` holds `mark`, or the
/// length of `text` where there is none.
pub open spec fn position(text: Seq<char>, mark: char, from: int) -> int
    decreases text.len() - from,
{
    if from < 0 || from >= text.len() {
        text.len() as int
    } else if text[from] == mark {
        from
    } else {
        position(text, mark, from + 1)
    }
}

/// The text holds the mark somewhere.
pub open spec fn holds(text: Seq<char>, mark: char) -> bool {
    position(text, mark, 0) < text.len()
}

/// What stands before the first occurrence of the mark.
pub open spec fn before(text: Seq<char>, mark: char) -> Seq<char> {
    text.take(position(text, mark, 0))
}

/// What stands after the first occurrence of the mark.
pub open spec fn after(text: Seq<char>, mark: char) -> Seq<char> {
    if holds(text, mark) {
        text.skip(position(text, mark, 0) + 1)
    } else {
        Seq::empty()
    }
}

/// Two texts with a mark between them.
pub open spec fn join(head: Seq<char>, mark: char, tail: Seq<char>) -> Seq<char> {
    head + seq![mark] + tail
}

impl NameView {
    /// The components can be told apart in the written name: none of the
    /// three free texts holds a slash.
    pub open spec fn well_formed(self) -> bool {
        &&& slash_free(self.implementation)
        &&& slash_free(self.input)
        &&& slash_free(self.query)
    }

    /// The written name.
    pub open spec fn text(self) -> Seq<char> {
        join(
            self.direction.spec_label(),
            '/',
            join(
                self.implementation,
                '/',
                join(
                    self.mode.spec_label(),
                    '/',
                    join(self.input, '/', join(self.tier.spec_label(), '-', self.query)),
                ),
            ),
        )
    }
}

/// The components that a text names under the grammar, if it names any:
/// four slashes split it into five fields, the first a direction, the third
/// a mode, and the last a tier, a hyphen and the query.
pub open spec fn spec_decode(text: Seq<char>) -> Option<NameView> {
    let rest1 = after(text, '/');
    let rest2 = after(rest1, '/');
    let rest3 = after(rest2, '/');
    let rest4 = after(rest3, '/');
    if holds(text, '/') && holds(rest1, '/') && holds(rest2, '/') && holds(rest3, '/') && !holds(
        rest4,
        '/',
    ) && holds(rest4, '-') {
        match (
            Direction::spec_from_label(before(text, '/')),
            Mode::spec_from_label(before(rest2, '/')),
            Tier::spec_from_label(before(rest4, '-')),
        ) {
            (Some(direction), Some(mode), Some(tier)) => Some(
                NameView {
                    direction,
                    implementation: before(rest1, '/'),
                    mode,
                    input: before(rest3, '/'),
                    tier,
                    query: after(rest4, '-'),
                },
            ),
            _ => None,
        }
    } else {
        None
    }
}

/// Where `position` points: nothing before it is the mark, and it is the
/// mark unless the text has run out.
pub proof fn lemma_position(text: Seq<char>, mark: char, from: int)
    requires
        0 <= from <= text.len(),
    ensures
        from <= position(text, mark, from) <= text.len(),
        forall|j: int| from <= j < position(text, mark, from) ==> text[j] != mark,
        position(text, mark, from) < text.len() ==> text[position(text, mark, from)] == mark,
    decreases text.len() - from,
{
    if from < text.len() && text[from] != mark {
        lemma_position(text, mark, from + 1);
    }
}

/// An index that nothing but the mark can reach is where `position` points.
pub proof fn lemma_position_is(text: Seq<char>, mark: char, from: int, at: int)
    requires
        0 <= from <= at <= text.len(),
        forall|j: int| from <= j < at ==> text[j] != mark,
        at < text.len() ==> text[at] == mark,
    ensures
        position(text, mark, from) == at,
    decreases at - from,
{
    if from < at {
        lemma_position_is(text, mark, from + 1, at);
    }
}

/// A text holds a mark in the sense of `holds` exactly when it contains it.
pub proof fn lemma_holds(text: Seq<char>, mark: char)
    ensures
        holds(text, mark) == text.contains(mark),
{
    lemma_position(text, mark, 0);
    if holds(text, mark) {
        assert(text[position(text, mark, 0)] == mark);
    }
}

/// Splitting a joined text at the mark gives the two parts back, where the
/// first part holds no mark.
pub proof fn lemma_split_join(head: Seq<char>, mark: char, tail: Seq<char>)
    requires
        !head.contains(mark),
    ensures
        holds(join(head, mark, tail), mark),
        before(join(head, mark, tail), mark) == head,
        after(join(head, mark, tail), mark) == tail,
{
    let text = join(head, mark, tail);
    assert forall|j: int| 0 <= j < head.len() implies text[j] != mark by {
        assert(text[j] == head[j]);
        assert(head.contains(head[j]));
    }
    assert(text[head.len() as int] == mark);
    lemma_position_is(text, mark, 0, head.len() as int);
    assert(text.take(head.len() as int) =~= head);
    assert(text.skip(head.len() as int + 1) =~= tail);
}

/// A text that holds the mark is its two parts joined, and the first part
/// holds no mark.
pub proof fn lemma_join_split(text: Seq<char>, mark: char)
    requires
        holds(text, mark),
    ensures
        text == join(before(text, mark), mark, after(text, mark)),
        !before(text, mark).contains(mark),
{
    lemma_position(text, mark, 0);
    let at = position(text, mark, 0);
    let head = before(text, mark);
    assert(text =~= join(head, mark, after(text, mark)));
    assert forall|j: int| 0 <= j < head.len() implies head[j] != mark by {
        assert(head[j] == text[j]);
    }
}

/// Reading a written name gives back the components that it was written
/// from, whenever those can be told apart.
pub proof fn lemma_decode_text(parts: NameView)
    requires
        parts.well_formed(),
    ensures
        spec_decode(parts.text()) == Some(parts),
{
    parts.direction.lemma_label();
    parts.mode.lemma_label();
    parts.tier.lemma_label();
    let last = join(parts.tier.spec_label(), '-', parts.query);
    let rest3 = join(parts.input, '/', last);
    let rest2 = join(parts.mode.spec_label(), '/', rest3);
    let rest1 = join(parts.implementation, '/', rest2);
    lemma_split_join(parts.direction.spec_label(), '/', rest1);
    lemma_split_join(parts.implementation, '/', rest2);
    lemma_split_join(parts.mode.spec_label(), '/', rest3);
    lemma_split_join(parts.input, '/', last);
    lemma_split_join(parts.tier.spec_label(), '-', parts.query);
    assert(!holds(last, '/')) by {
        assert forall|j: int| 0 <= j < last.len() implies last[j] != '/' by {
            let label = parts.tier.spec_label();
            if j < label.len() {
                assert(last[j] == label[j]);
                assert(label.contains(label[j]));
            } else if j > label.len() {
                assert(last[j] == parts.query[j - label.len() - 1]);
                assert(parts.query.contains(parts.query[j - label.len() - 1]));
            }
        }
        lemma_position_is(last, '/', 0, last.len() as int);
    }
}

/// A text that reads as a name is the written name of what was read, and
/// what was read can be told apart.
pub proof fn lemma_text_decode(text: Seq<char>)
    requires
        spec_decode(text) is Some,
    ensures
        spec_decode(text)->Some_0.text() == text,
        spec_decode(text)->Some_0.well_formed(),
{
    let parts = spec_decode(text)->Some_0;
    let rest1 = after(text, '/');
    let rest2 = after(rest1, '/');
    let rest3 = after(rest2, '/');
    let rest4 = after(rest3, '/');
    lemma_join_split(text, '/');
    lemma_join_split(rest1, '/');
    lemma_join_split(rest2, '/');
    lemma_join_split(rest3, '/');
    lemma_join_split(rest4, '-');
    parts.direction.lemma_label();
    parts.mode.lemma_label();
    parts.tier.lemma_label();
    assert(parts.direction.spec_label() == before(text, '/'));
    assert(parts.mode.spec_label() == before(rest2, '/'));
    assert(parts.tier.spec_label() == before(rest4, '-'));
    lemma_holds(rest4, '/');
    lemma_position(rest4, '-', 0);
    assert forall|j: int| 0 <= j < parts.query.len() implies parts.query[j] != '/' by {
        let shift = position(rest4, '-', 0) + 1;
        assert(parts.query[j] == rest4[j + shift]);
        assert(rest4.contains(rest4[j + shift]));
    }
}

/// A written name begins with `memrmem/` exactly when its direction is
/// reverse, and with `memmem/` exactly when it is forward.
pub proof fn lemma_direction_prefix(parts: NameView)
    ensures
        "memrmem/"@.is_prefix_of(parts.text()) == (parts.direction == Direction::Reverse),
        "memmem/"@.is_prefix_of(parts.text()) == (parts.direction == Direction::Forward),
{
    reveal_strlit("memmem");
    reveal_strlit("memrmem");
    reveal_strlit("memmem/");
    reveal_strlit("memrmem/");
    let text = parts.text();
    let label = parts.direction.spec_label();
    assert(text.len() > label.len());
    assert(text[label.len() as int] == '/');
    assert forall|j: int| 0 <= j < label.len() implies text[j] == label[j] by {
    }
    match parts.direction {
        Direction::Forward => {
            assert(text[3] == 'm');
            assert("memmem/"@ =~= text.subrange(0, 7));
            if "memrmem/"@.is_prefix_of(text) {
                assert(text.subrange(0, 8)[3] == 'r');
            }
        },
        Direction::Reverse => {
            assert(text[3] == 'r');
            assert("memrmem/"@ =~= text.subrange(0, 8));
            if "memmem/"@.is_prefix_of(text) {
                assert(text.subrange(0, 7)[3] == 'm');
            }
        },
    }
}

/// Two sets of components that write the same name are the same.
pub proof fn lemma_text_injective(first: NameView, second: NameView)
    requires
        first.well_formed(),
        second.well_formed(),
        first.text() == second.text(),
    ensures
        first == second,
{
    lemma_decode_text(first);
    lemma_decode_text(second);
}

/// Splits a text at the first occurrence of a mark.
pub fn split_first(text: &str, mark: char) -> (parts: Option<(&str, &str)>)
    ensures
        parts is Some == holds(text@, mark),
        parts matches Some((head, tail)) ==> head@ == before(text@, mark) && tail@ == after(
            text@,
            mark,
        ),
{
    let length = text.unicode_len();
    let mut at: usize = 0;
    while at < length
        invariant
            at <= length,
            length == text@.len(),
            position(text@, mark, 0) == position(text@, mark, at as int),
        decreases length - at,
    {
        if text.get_char(at) == mark {
            let head = text.substring_char(0, at);
            let tail = text.substring_char(at + 1, length);
            return Some((head, tail));
        }
        at = at + 1;
    }
    None
}

/// Writes the name of the benchmark that the six components identify. The
/// components are written as they are: nothing is escaped.
pub fn benchmark_name(
    direction: Direction,
    implementation: &str,
    mode: Mode,
    input: &str,
    tier: Tier,
    query: &str,
) -> (name: String)
    ensures
        name@ == (NameView {
            direction,
            implementation: implementation@,
            mode,
            input: input@,
            tier,
            query: query@,
        }).text(),
        slash_free(implementation@) && slash_free(input@) && slash_free(query@) ==> spec_decode(
            name@,
        ) == Some(
            NameView {
                direction,
                implementation: implementation@,
                mode,
                input: input@,
                tier,
                query: query@,
            },
        ),
{
    let mut name = String::new();
    name.append(direction.label());
    name.append("/");
    name.append(implementation);
    name.append("/");
    name.append(mode.label());
    name.append("/");
    name.append(input);
    name.append("/");
    name.append(tier.label());
    name.append("-");
    name.append(query);
    proof {
        reveal_strlit("/");
        reveal_strlit("-");
        assert("/"@ =~= seq!['/']);
        assert("-"@ =~= seq!['-']);
        let parts = NameView {
            direction,
            implementation: implementation@,
            mode,
            input: input@,
            tier,
            query: query@,
        };
        assert(name@ =~= parts.text());
        if parts.well_formed() {
            lemma_decode_text(parts);
        }
    }
    name
}

/// Reads a name back into its components. A text reads as a name exactly
/// when it is the written name of components that can be told apart, and
/// then it reads as those components; any other text gives `None`.
pub fn decode_name(name: &str) -> (parts: Option<NameParts>)
    ensures
        parts is Some == spec_decode(name@) is Some,
        parts matches Some(read) ==> Some(read@) == spec_decode(name@) && read@.well_formed()
            && read@.text() == name@,
        parts is None ==> forall|written: NameView|
            written.well_formed() ==> #[trigger] written.text() != name@,
{
    proof {
        if spec_decode(name@) is Some {
            lemma_text_decode(name@);
        } else {
            assert forall|written: NameView| written.well_formed() implies #[trigger] written.text()
                != name@ by {
                lemma_decode_text(written);
            }
        }
    }
    let (direction_text, rest1) = match split_first(name, '/') {
        Some(pair) => pair,
        None => { return None; },
    };
    let (implementation, rest2) = match split_first(rest1, '/') {
        Some(pair) => pair,
        None => { return None; },
    };
    let (mode_text, rest3) = match split_first(rest2, '/') {
        Some(pair) => pair,
        None => { return None; },
    };
    let (input, rest4) = match split_first(rest3, '/') {
        Some(pair) => pair,
        None => { return None; },
    };
    if split_first(rest4, '/').is_some() {
        return None;
    }
    let (tier_text, query) = match split_first(rest4, '-') {
        Some(pair) => pair,
        None => { return None; },
    };
    let direction = match Direction::from_label(direction_text) {
        Some(direction) => direction,
        None => { return None; },
    };
    let mode = match Mode::from_label(mode_text) {
        Some(mode) => mode,
        None => { return None; },
    };
    let tier = match Tier::from_label(tier_text) {
        Some(tier) => tier,
        None => { return None; },
    };
    Some(
        NameParts {
            direction,
            implementation: implementation.to_owned(),
            mode,
            input: input.to_owned(),
            tier,
            query: query.to_owned(),
        },
    )
}

} // verus!
