//! Turns: whether an agent has done anything worth a snapshot since its last one.
use vstd::hash_map::StringHashMap;
use vstd::prelude::*;

use crate::id;
use crate::id::SandboxId;

verus! {

/// A turn of a sandbox.
#[derive(Debug)]
pub struct TurnState {
    pub current_turn_id: String,
    pub dirty: bool,
    pub baseline_pids: u64,
}

#[verifier::ext_equal]
pub struct TurnModel {
    pub turn: Seq<char>,
    pub dirty: bool,
    pub baseline_pids: u64,
}

impl View for TurnState {
    type V = TurnModel;

    open spec fn view(&self) -> TurnModel {
        TurnModel { turn: self.current_turn_id@, dirty: self.dirty, baseline_pids: self.baseline_pids }
    }
}

/// The current turns of the sandboxes.
pub struct TurnTracker {
    pub inner: StringHashMap<TurnState>,
}

/// Whether a sandbox's turn is dirty. One that is not known counts as dirty.
pub open spec fn dirty_in(turns: Map<Seq<char>, TurnModel>, key: Seq<char>) -> bool {
    if turns.contains_key(key) {
        turns[key].dirty
    } else {
        true
    }
}

/// The turns once a sandbox has begun one.
pub open spec fn begun(turns: Map<Seq<char>, TurnModel>, key: Seq<char>, turn: Seq<char>) -> Map<
    Seq<char>,
    TurnModel,
> {
    turns.insert(key, TurnModel { turn, dirty: false, baseline_pids: 0 })
}

/// The turns once a sandbox's turn is dirty. One that is not known stays unknown.
pub open spec fn marked(turns: Map<Seq<char>, TurnModel>, key: Seq<char>) -> Map<Seq<char>, TurnModel> {
    if turns.contains_key(key) {
        turns.insert(key, TurnModel { dirty: true, ..turns[key] })
    } else {
        turns
    }
}

impl TurnTracker {
    /// The current turns.
    pub open spec fn turns(&self) -> Map<Seq<char>, TurnModel> {
        self.inner@.map_values(|t: TurnState| t@)
    }

    /// A tracker that knows of no turn.
    pub fn new() -> (r: Self)
        ensures
            r.turns() == Map::<Seq<char>, TurnModel>::empty(),
    {
        let t = TurnTracker { inner: StringHashMap::new() };
        proof {
            assert(t.turns() =~= Map::<Seq<char>, TurnModel>::empty());
        }
        t
    }

    /// Begins a turn, which is clean.
    pub fn begin(&mut self, sandbox_id: &SandboxId, turn_id: &str)
        ensures
            final(self).turns() == begun(old(self).turns(), sandbox_id.shown(), turn_id@),
    {
        let ghost before = self.turns();
        self.inner.insert(
            sandbox_id.to_string(),
            TurnState { current_turn_id: turn_id.to_owned(), dirty: false, baseline_pids: 0 },
        );
        proof {
            assert(self.turns() =~= begun(before, sandbox_id.shown(), turn_id@));
        }
    }

    /// Whether the turn that ends was dirty. The tracker knows of it until the next one begins.
    pub fn end(&self, sandbox_id: &SandboxId) -> (r: bool)
        ensures
            r == dirty_in(self.turns(), sandbox_id.shown()),
    {
        self.is_dirty(sandbox_id)
    }

    /// Puts on the record that the current turn is dirty.
    pub fn mark_dirty(&mut self, sandbox_id: &SandboxId)
        ensures
            final(self).turns() == marked(old(self).turns(), sandbox_id.shown()),
    {
        let ghost before = self.turns();
        let key = sandbox_id.to_string();
        let next: Option<TurnState> = match self.inner.get(key.as_str()) {
            Some(t) => Some(
                TurnState { current_turn_id: t.current_turn_id.clone(), dirty: true, baseline_pids: t.baseline_pids },
            ),
            None => None,
        };
        if let Some(t) = next {
            self.inner.insert(key, t);
            proof {
                assert(self.turns() =~= marked(before, sandbox_id.shown()));
            }
        }
    }

    /// Whether the current turn is dirty.
    pub fn is_dirty(&self, sandbox_id: &SandboxId) -> (r: bool)
        ensures
            r == dirty_in(self.turns(), sandbox_id.shown()),
    {
        match self.inner.get(sandbox_id.to_string().as_str()) {
            Some(t) => t.dirty,
            None => true,
        }
    }
}

impl Default for TurnTracker {
    /// A tracker that knows of no turn.
    fn default() -> (r: Self)
        ensures
            r.turns() == Map::<Seq<char>, TurnModel>::empty(),
    {
        TurnTracker::new()
    }
}

/// A turn is clean once it has begun and until it is marked, whatever came before it; and a sandbox
/// that is not known counts as dirty.
pub proof fn a_turn_begins_clean(turns: Map<Seq<char>, TurnModel>, key: Seq<char>, turn: Seq<char>)
    ensures
        !dirty_in(begun(turns, key, turn), key),
        dirty_in(marked(begun(turns, key, turn), key), key),
        !turns.contains_key(key) ==> dirty_in(turns, key) && dirty_in(marked(turns, key), key),
{
}

/// What one sandbox does in its turn does not touch another's.
pub proof fn turns_are_independent(turns: Map<Seq<char>, TurnModel>, a: SandboxId, b: SandboxId, turn: Seq<char>)
    requires
        a.key() != b.key(),
    ensures
        dirty_in(begun(turns, a.shown(), turn), b.shown()) == dirty_in(turns, b.shown()),
        dirty_in(marked(turns, a.shown()), b.shown()) == dirty_in(turns, b.shown()),
{
    if a.shown() == b.shown() {
        id::texts_tell_identifiers_apart(a.key(), b.key());
    }
}

} // verus!
