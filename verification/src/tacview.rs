//! Coalitions, the colour markers that name them, and the registry of unit identifiers.

use crate::constants::{COLOR_BLUE, COLOR_MARKER, COLOR_PURPLE, COLOR_RED, COLOR_VIOLET};
use crate::text::{chars_of, contains, occurs_in, str_contains};
use vstd::hash_map::StringHashMap;
use vstd::prelude::*;

verus! {

/// A side in the recorded scenario, or one of the two labels for lines that belong to no single
/// side: `All` for lines that every side receives, `Unknown` for lines that cannot be attributed.
#[derive(PartialEq, Eq, Clone, Copy, Debug, Structural)]
pub enum Coalition {
    Blue,
    Red,
    Violet,
    All,
    Unknown,
}

/// What the third coalition is called. Recordings and the names of outputs call it violet unless
/// they are told to call it purple.
#[derive(PartialEq, Eq, Clone, Copy, Debug, Structural)]
pub enum ThirdName {
    Violet,
    Purple,
}

/// The colour of the third coalition, as a line states it.
pub open spec fn third_color(third: ThirdName) -> Seq<char> {
    match third {
        ThirdName::Violet => COLOR_VIOLET@,
        ThirdName::Purple => COLOR_PURPLE@,
    }
}

/// A line carries a colour marker when `Color=` stands somewhere in it.
pub open spec fn has_color_marker(line: Seq<char>) -> bool {
    occurs_in(line, COLOR_MARKER@)
}

/// The coalition that a line's colour names. Blue is looked for first, then red, then the
/// colour of the third coalition; any other colour, or none, names no coalition.
pub open spec fn color_of(line: Seq<char>, third: ThirdName) -> Coalition {
    if occurs_in(line, COLOR_BLUE@) {
        Coalition::Blue
    } else if occurs_in(line, COLOR_RED@) {
        Coalition::Red
    } else if occurs_in(line, third_color(third)) {
        Coalition::Violet
    } else {
        Coalition::Unknown
    }
}

/// The lower-case name of a coalition, as it stands in the names of output files.
pub open spec fn label_of(coalition: Coalition, third: ThirdName) -> Seq<char> {
    match coalition {
        Coalition::Blue => "blue"@,
        Coalition::Red => "red"@,
        Coalition::Violet => match third {
            ThirdName::Violet => "violet"@,
            ThirdName::Purple => "purple"@,
        },
        Coalition::All => "all"@,
        Coalition::Unknown => "unknown"@,
    }
}

impl Coalition {
    /// The coalition named by the colour in `line`, where the third coalition is violet.
    pub fn from_line(line: &str) -> (coalition: Coalition)
        ensures
            coalition == color_of(line@, ThirdName::Violet),
    {
        Coalition::from_line_named(line, ThirdName::Violet)
    }

    /// The coalition named by the colour in `line`, where the third coalition is called
    /// `third`.
    pub fn from_line_named(line: &str, third: ThirdName) -> (coalition: Coalition)
        ensures
            coalition == color_of(line@, third),
    {
        let text = chars_of(line);
        let third_color = match third {
            ThirdName::Violet => COLOR_VIOLET,
            ThirdName::Purple => COLOR_PURPLE,
        };
        if contains(&text, &chars_of(COLOR_BLUE)) {
            Coalition::Blue
        } else if contains(&text, &chars_of(COLOR_RED)) {
            Coalition::Red
        } else if contains(&text, &chars_of(third_color)) {
            Coalition::Violet
        } else {
            Coalition::Unknown
        }
    }

    /// Whether `line` carries a colour marker.
    pub fn line_contains_coalition(line: &str) -> (found: bool)
        ensures
            found == has_color_marker(line@),
    {
        str_contains(line, COLOR_MARKER)
    }

    /// The lower-case name of the coalition, where the third coalition is violet.
    pub fn label(&self) -> (name: &'static str)
        ensures
            name@ == label_of(*self, ThirdName::Violet),
    {
        self.label_named(ThirdName::Violet)
    }

    /// The lower-case name of the coalition, where the third coalition is called `third`.
    pub fn label_named(&self, third: ThirdName) -> (name: &'static str)
        ensures
            name@ == label_of(*self, third),
    {
        match self {
            Coalition::Blue => "blue",
            Coalition::Red => "red",
            Coalition::Violet => match third {
                ThirdName::Violet => "violet",
                ThirdName::Purple => "purple",
            },
            Coalition::All => "all",
            Coalition::Unknown => "unknown",
        }
    }
}

/// The registry of one scan: which coalition each unit identifier was first seen with.
///
/// An identifier enters the registry once and keeps its coalition from then on.
pub struct CoalitionIDs {
    ids: StringHashMap<Coalition>,
}

impl View for CoalitionIDs {
    type V = Map<Seq<char>, Coalition>;

    closed spec fn view(&self) -> Map<Seq<char>, Coalition> {
        self.ids@
    }
}

/// The registry after `id` was offered with `coalition`: a new identifier is added, a known one
/// keeps what it has.
pub open spec fn registered(
    ids: Map<Seq<char>, Coalition>,
    id: Seq<char>,
    coalition: Coalition,
) -> Map<Seq<char>, Coalition> {
    if ids.contains_key(id) {
        ids
    } else {
        ids.insert(id, coalition)
    }
}

/// What the registry holds for `id`, if anything.
pub open spec fn lookup(ids: Map<Seq<char>, Coalition>, id: Seq<char>) -> Option<Coalition> {
    if ids.contains_key(id) {
        Some(ids[id])
    } else {
        None
    }
}

impl CoalitionIDs {
    /// An empty registry.
    pub fn new() -> (ids: Self)
        ensures
            ids@ == Map::<Seq<char>, Coalition>::empty(),
    {
        CoalitionIDs { ids: StringHashMap::new() }
    }

    /// Registers `id` with `coalition` unless `id` is registered already.
    pub fn insert(&mut self, id: &str, coalition: &Coalition)
        ensures
            final(self)@ == registered(old(self)@, id@, *coalition),
    {
        if !self.ids.contains_key(id) {
            self.ids.insert(id.to_owned(), *coalition);
        }
    }

    /// The coalition that `id` is registered with.
    pub fn get(&self, id: &str) -> (found: Option<Coalition>)
        ensures
            found == lookup(self@, id@),
    {
        match self.ids.get(id) {
            Some(coalition) => Some(*coalition),
            None => None,
        }
    }
}

} // verus!
