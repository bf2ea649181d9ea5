//! What the tool remembers of the units it applied: for each unit, the
//! fingerprint of the content it last wrote.

use crate::fingerprint::{calculate_hash, sha256_hex};
use crate::string_map::StringMap;
use vstd::prelude::*;
use vstd::string::*;

verus! {

/// Whether `content` is what `state` expects to find installed for `unit`.
///
/// A unit without a stored fingerprint was never applied: nothing is
/// expected of it, so whatever is installed matches.
pub open spec fn matches_stored(
    state: Map<Seq<char>, Seq<char>>,
    unit: Seq<char>,
    content: Seq<char>,
) -> bool {
    state.contains_key(unit) ==> state[unit] == sha256_hex(content)
}

/// What was found where the state is persisted.
#[derive(Debug)]
pub enum StoredState {
    /// Nothing is stored yet.
    Missing,
    /// Something is stored that does not read as a state.
    Unreadable,
    /// The stored mapping from unit name to fingerprint.
    Parsed(StringMap),
}

/// The mapping that a run starts from, given what was found in storage.
pub open spec fn initial_state(stored: StoredState) -> Map<Seq<char>, Seq<char>> {
    match stored {
        StoredState::Parsed(services) => services@,
        StoredState::Missing | StoredState::Unreadable => Map::empty(),
    }
}

/// The fingerprint of the content last applied, by unit name.
#[derive(Debug)]
pub struct StateFile {
    pub services: StringMap,
}

impl View for StateFile {
    type V = Map<Seq<char>, Seq<char>>;

    open spec fn view(&self) -> Map<Seq<char>, Seq<char>> {
        self.services@
    }
}

impl StateFile {
    /// The state of a tool that has applied nothing.
    pub fn new() -> (state: StateFile)
        ensures
            state@ == Map::<Seq<char>, Seq<char>>::empty(),
    {
        StateFile { services: StringMap::new() }
    }

    /// The state to start from. A state that cannot be read is no reason to
    /// stop: it counts as nothing known yet, like a state that is missing.
    pub fn load_or_create(stored: StoredState) -> (state: StateFile)
        ensures
            state@ == initial_state(stored),
    {
        match stored {
            StoredState::Parsed(services) => StateFile { services },
            StoredState::Missing => StateFile::new(),
            StoredState::Unreadable => StateFile::new(),
        }
    }

    /// Whether the installed `content` of `unit` is what was last applied.
    pub fn validate_service(&self, unit: &str, content: &str) -> (valid: bool)
        ensures
            valid == matches_stored(self@, unit@, content@),
    {
        match self.services.get(unit) {
            Some(stored_hash) => calculate_hash(content) == *stored_hash,
            None => true,
        }
    }

    /// Remembers that `content` is now installed for `unit`.
    pub fn record(&mut self, unit: &str, content: &str)
        ensures
            final(self)@ == old(self)@.insert(unit@, sha256_hex(content@)),
    {
        self.services.insert(String::from_str(unit), calculate_hash(content));
    }
}

/// Installed content whose fingerprint is the stored one matches.
pub proof fn lemma_same_fingerprint_matches(
    state: Map<Seq<char>, Seq<char>>,
    unit: Seq<char>,
    content: Seq<char>,
)
    requires
        state.contains_key(unit),
        state[unit] == sha256_hex(content),
    ensures
        matches_stored(state, unit, content),
{
}

/// Installed content whose fingerprint differs from the stored one does not
/// match.
pub proof fn lemma_other_fingerprint_differs(
    state: Map<Seq<char>, Seq<char>>,
    unit: Seq<char>,
    content: Seq<char>,
)
    requires
        state.contains_key(unit),
        state[unit] != sha256_hex(content),
    ensures
        !matches_stored(state, unit, content),
{
}

/// Without a stored fingerprint every content matches.
pub proof fn lemma_unknown_unit_matches(
    state: Map<Seq<char>, Seq<char>>,
    unit: Seq<char>,
    content: Seq<char>,
)
    requires
        !state.contains_key(unit),
    ensures
        matches_stored(state, unit, content),
{
}

/// Once `content` is recorded for `unit`, it matches; what is stored for
/// other units stays as it was.
pub proof fn lemma_recorded_content_matches(
    state: Map<Seq<char>, Seq<char>>,
    unit: Seq<char>,
    content: Seq<char>,
)
    ensures
        matches_stored(state.insert(unit, sha256_hex(content)), unit, content),
        forall|other: Seq<char>, text: Seq<char>|
            other != unit ==> (#[trigger] matches_stored(
                state.insert(unit, sha256_hex(content)),
                other,
                text,
            ) <==> matches_stored(state, other, text)),
{
}

} // verus!
