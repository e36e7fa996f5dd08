//! Action identities and the action-outcome cache.
//!
//! The dispatch layer hands every state-mutating action a unique identity.
//! The cache decouples "has this exact action been terminally processed,
//! and with what result" from "what is the current link graph": the driver
//! can retry a dispatch without re-applying side effects, and observers can
//! poll an action's result without re-running the mutation. An action is
//! either absent from the cache or present with its final outcome; there is
//! no pending state, and a recorded outcome is never overwritten. The cache
//! grows monotonically — no eviction is offered, a deliberate limitation of
//! this layer matching its use as an audit log for the reducer cycle.

use vstd::prelude::*;
use crate::error::DhtError;
use crate::error::DhtErrorView;

verus! {

/// Opaque identity of one dispatched state-mutating action instance. Two
/// dispatches of the same payload are two different identities unless the
/// driver deliberately reuses one for retry semantics; this layer treats
/// the identity as a black-box comparable key.
#[derive(Clone, Copy, Debug, PartialEq, Eq, Structural, Hash)]
pub struct ActionWrapper {
    pub id: u64,
}

impl ActionWrapper {
    pub fn new(id: u64) -> (r: ActionWrapper)
        ensures
            r.id == id,
    {
        ActionWrapper { id }
    }
}

/// Mathematical image of a recorded outcome.
pub open spec fn outcome_view(o: Result<(), DhtError>) -> Result<(), DhtErrorView> {
    match o {
        Ok(()) => Ok(()),
        Err(e) => Err(e@),
    }
}

/// Copies an outcome value.
pub fn clone_outcome(o: &Result<(), DhtError>) -> (r: Result<(), DhtError>)
    ensures
        outcome_view(r) == outcome_view(*o),
{
    match o {
        Ok(()) => Ok(()),
        Err(e) => Err(e.clone()),
    }
}

/// Compares two outcome values.
pub fn outcome_eq(a: &Result<(), DhtError>, b: &Result<(), DhtError>) -> (r: bool)
    ensures
        r == (outcome_view(*a) == outcome_view(*b)),
{
    match (a, b) {
        (Ok(()), Ok(())) => true,
        (Err(x), Err(y)) => x.eq(y),
        _ => false,
    }
}

/// The mapping denoted by a sequence of cache entries: later entries win,
/// though the cache never stores one identity twice.
pub open spec fn entries_as_map(s: Seq<(ActionWrapper, Result<(), DhtError>)>) -> Map<
    u64,
    Result<(), DhtErrorView>,
>
    decreases s.len(),
{
    if s.len() == 0 {
        Map::empty()
    } else {
        entries_as_map(s.drop_last()).insert(s.last().0.id, outcome_view(s.last().1))
    }
}

/// No two entries carry the same action identity.
pub open spec fn distinct_actions(s: Seq<(ActionWrapper, Result<(), DhtError>)>) -> bool {
    forall|i: int, j: int|
        #![trigger s[i], s[j]]
        0 <= i < s.len() && 0 <= j < s.len() && i != j ==> s[i].0.id != s[j].0.id
}

/// An identity is in the mapping exactly when some entry carries it.
pub proof fn lemma_entries_map_dom(s: Seq<(ActionWrapper, Result<(), DhtError>)>)
    ensures
        forall|k: u64|
            entries_as_map(s).dom().contains(k) <==> exists|i: int|
                0 <= i < s.len() && #[trigger] s[i].0.id == k,
    decreases s.len(),
{
    if s.len() > 0 {
        lemma_entries_map_dom(s.drop_last());
        assert forall|k: u64| entries_as_map(s).dom().contains(k) implies exists|i: int|
            0 <= i < s.len() && #[trigger] s[i].0.id == k by {
            if k == s.last().0.id {
                assert(s[s.len() - 1].0.id == k);
            } else {
                assert(entries_as_map(s.drop_last()).dom().contains(k));
                let i = choose|i: int|
                    0 <= i < s.drop_last().len() && #[trigger] s.drop_last()[i].0.id == k;
                assert(s.drop_last()[i] == s[i]);
                assert(s[i].0.id == k);
            }
        }
        assert forall|k: u64|
            (exists|i: int| 0 <= i < s.len() && #[trigger] s[i].0.id == k) implies entries_as_map(
            s,
        ).dom().contains(k) by {
            let i = choose|i: int| 0 <= i < s.len() && #[trigger] s[i].0.id == k;
            if i < s.len() - 1 {
                assert(s.drop_last()[i] == s[i]);
                assert(s.drop_last()[i].0.id == k);
                assert(entries_as_map(s.drop_last()).dom().contains(k));
            }
        }
    }
}

/// With distinct identities, each entry's outcome is the one the mapping
/// assigns to its identity.
pub proof fn lemma_entries_map_index(s: Seq<(ActionWrapper, Result<(), DhtError>)>, i: int)
    requires
        distinct_actions(s),
        0 <= i < s.len(),
    ensures
        entries_as_map(s).dom().contains(s[i].0.id),
        entries_as_map(s)[s[i].0.id] == outcome_view(s[i].1),
    decreases s.len(),
{
    if i == s.len() - 1 {
    } else {
        assert(distinct_actions(s.drop_last())) by {
            assert(forall|k: int|
                0 <= k < s.len() - 1 ==> #[trigger] s.drop_last()[k] == s[k]);
        }
        assert(s.drop_last()[i] == s[i]);
        lemma_entries_map_index(s.drop_last(), i);
        assert(s[i].0.id != s.last().0.id);
    }
}

/// With distinct identities, the mapping is finite and has one identity per
/// entry.
pub proof fn lemma_entries_map_len(s: Seq<(ActionWrapper, Result<(), DhtError>)>)
    requires
        distinct_actions(s),
    ensures
        entries_as_map(s).dom().finite(),
        entries_as_map(s).dom().len() == s.len(),
    decreases s.len(),
{
    if s.len() > 0 {
        assert(distinct_actions(s.drop_last())) by {
            assert(forall|k: int|
                0 <= k < s.len() - 1 ==> #[trigger] s.drop_last()[k] == s[k]);
        }
        lemma_entries_map_len(s.drop_last());
        lemma_entries_map_dom(s.drop_last());
        assert(!entries_as_map(s.drop_last()).dom().contains(s.last().0.id)) by {
            if exists|i: int|
                0 <= i < s.drop_last().len() && #[trigger] s.drop_last()[i].0.id
                    == s.last().0.id {
                let i = choose|i: int|
                    0 <= i < s.drop_last().len() && #[trigger] s.drop_last()[i].0.id
                        == s.last().0.id;
                assert(s[i].0.id == s[s.len() - 1].0.id);
            }
        }
    }
}

/// The mapping depends only on each entry's identity and outcome view.
pub proof fn lemma_entries_map_congruent(
    s1: Seq<(ActionWrapper, Result<(), DhtError>)>,
    s2: Seq<(ActionWrapper, Result<(), DhtError>)>,
)
    requires
        s1.len() == s2.len(),
        forall|i: int|
            0 <= i < s1.len() ==> #[trigger] s1[i].0.id == s2[i].0.id && outcome_view(s1[i].1)
                == outcome_view(s2[i].1),
    ensures
        entries_as_map(s1) == entries_as_map(s2),
    decreases s1.len(),
{
    if s1.len() > 0 {
        assert(forall|i: int|
            0 <= i < s1.len() - 1 ==> #[trigger] s1.drop_last()[i] == s1[i]);
        assert(forall|i: int|
            0 <= i < s2.len() - 1 ==> #[trigger] s2.drop_last()[i] == s2[i]);
        lemma_entries_map_congruent(s1.drop_last(), s2.drop_last());
        assert(s1[s1.len() - 1].0.id == s2[s2.len() - 1].0.id);
        assert(outcome_view(s1[s1.len() - 1].1) == outcome_view(s2[s2.len() - 1].1));
    }
}

/// The action-outcome cache: a write-once mapping from action identity to
/// the action's terminal outcome.
#[derive(Debug)]
pub struct OutcomeCache {
    entries: Vec<(ActionWrapper, Result<(), DhtError>)>,
}

impl View for OutcomeCache {
    type V = Map<u64, Result<(), DhtErrorView>>;

    closed spec fn view(&self) -> Map<u64, Result<(), DhtErrorView>> {
        entries_as_map(self.entries@)
    }
}

impl OutcomeCache {
    #[verifier::type_invariant]
    spec fn wf(self) -> bool {
        distinct_actions(self.entries@)
    }

    /// Creates an empty cache.
    pub fn new() -> (r: OutcomeCache)
        ensures
            r@ == Map::<u64, Result<(), DhtErrorView>>::empty(),
    {
        OutcomeCache { entries: Vec::new() }
    }

    /// Whether this action already has a recorded outcome.
    pub fn contains_action(&self, action: &ActionWrapper) -> (r: bool)
        ensures
            r == self@.dom().contains(action.id),
    {
        proof {
            use_type_invariant(&*self);
            lemma_entries_map_dom(self.entries@);
        }
        let mut i: usize = 0;
        while i < self.entries.len()
            invariant
                i <= self.entries@.len(),
                forall|k: int| 0 <= k < i ==> #[trigger] self.entries@[k].0.id != action.id,
            decreases self.entries@.len() - i,
        {
            if self.entries[i].0.id == action.id {
                proof {
                    lemma_entries_map_dom(self.entries@);
                    assert(self.entries@[i as int].0.id == action.id);
                }
                return true;
            }
            i += 1;
        }
        proof {
            lemma_entries_map_dom(self.entries@);
        }
        false
    }

    /// The recorded outcome of this action, if it has one.
    pub fn get(&self, action: &ActionWrapper) -> (r: Option<&Result<(), DhtError>>)
        ensures
            match r {
                Some(o) => self@.dom().contains(action.id) && outcome_view(*o) == self@[action.id],
                None => !self@.dom().contains(action.id),
            },
    {
        proof {
            use_type_invariant(&*self);
        }
        let mut i: usize = 0;
        while i < self.entries.len()
            invariant
                i <= self.entries@.len(),
                distinct_actions(self.entries@),
                forall|k: int| 0 <= k < i ==> #[trigger] self.entries@[k].0.id != action.id,
            decreases self.entries@.len() - i,
        {
            if self.entries[i].0.id == action.id {
                proof {
                    lemma_entries_map_index(self.entries@, i as int);
                }
                return Some(&self.entries[i].1);
            }
            i += 1;
        }
        proof {
            lemma_entries_map_dom(self.entries@);
        }
        None
    }

    /// Records the terminal outcome of an action, once: if the action
    /// already has a recorded outcome, the cache is left untouched, so a
    /// recorded outcome is never overwritten; otherwise the outcome is
    /// added under the action's identity.
    pub fn record(&mut self, action: &ActionWrapper, outcome: Result<(), DhtError>)
        ensures
            old(self)@.dom().contains(action.id) ==> final(self)@ == old(self)@,
            !old(self)@.dom().contains(action.id) ==> final(self)@ == old(self)@.insert(
                action.id,
                outcome_view(outcome),
            ),
    {
        proof {
            use_type_invariant(&*self);
        }
        if self.contains_action(action) {
            return ;
        }
        proof {
            lemma_entries_map_dom(self.entries@);
        }
        let mut entries: Vec<(ActionWrapper, Result<(), DhtError>)> = Vec::new();
        std::mem::swap(&mut entries, &mut self.entries);
        let ghost entries0 = entries@;
        entries.push((*action, outcome));
        proof {
            assert(entries@.drop_last() =~= entries0);
            assert(distinct_actions(entries@)) by {
                assert(forall|k: int|
                    0 <= k < entries@.len() - 1 ==> #[trigger] entries@[k] == entries0[k]);
            }
        }
        self.entries = entries;
    }

    /// The number of actions with a recorded outcome.
    pub fn len(&self) -> (r: usize)
        ensures
            r == self@.dom().len(),
    {
        proof {
            use_type_invariant(&*self);
            lemma_entries_map_len(self.entries@);
        }
        self.entries.len()
    }

    /// Whether every recorded outcome of `self` is recorded identically in
    /// `other`.
    fn recorded_in(&self, other: &OutcomeCache) -> (r: bool)
        ensures
            r == (forall|k: u64|
                #[trigger] self@.dom().contains(k) ==> other@.dom().contains(k) && other@[k]
                    == self@[k]),
    {
        proof {
            use_type_invariant(&*self);
        }
        let mut i: usize = 0;
        while i < self.entries.len()
            invariant
                i <= self.entries@.len(),
                distinct_actions(self.entries@),
                forall|k: int|
                    0 <= k < i ==> other@.dom().contains(#[trigger] self.entries@[k].0.id)
                        && other@[self.entries@[k].0.id] == outcome_view(self.entries@[k].1),
            decreases self.entries@.len() - i,
        {
            let matched = match other.get(&self.entries[i].0) {
                Some(o) => outcome_eq(o, &self.entries[i].1),
                None => false,
            };
            if !matched {
                proof {
                    lemma_entries_map_index(self.entries@, i as int);
                    let ghost k = self.entries@[i as int].0.id;
                    assert(self@.dom().contains(k) && !(other@.dom().contains(k) && other@[k]
                        == self@[k]));
                }
                return false;
            }
            i += 1;
        }
        proof {
            lemma_entries_map_dom(self.entries@);
            assert forall|k: u64| self@.dom().contains(k) implies other@.dom().contains(k)
                && other@[k] == self@[k] by {
                let i = choose|i: int|
                    0 <= i < self.entries@.len() && #[trigger] self.entries@[i].0.id == k;
                lemma_entries_map_index(self.entries@, i);
            }
        }
        true
    }
}

impl Clone for OutcomeCache {
    /// A clone records exactly the outcomes of the original.
    fn clone(&self) -> (r: Self)
        ensures
            r@ == self@,
    {
        proof {
            use_type_invariant(&*self);
        }
        let mut entries: Vec<(ActionWrapper, Result<(), DhtError>)> = Vec::new();
        let mut i: usize = 0;
        while i < self.entries.len()
            invariant
                i <= self.entries@.len(),
                entries@.len() == i,
                forall|k: int|
                    0 <= k < i ==> #[trigger] entries@[k].0.id == self.entries@[k].0.id
                        && outcome_view(entries@[k].1) == outcome_view(self.entries@[k].1),
            decreases self.entries@.len() - i,
        {
            entries.push((self.entries[i].0, clone_outcome(&self.entries[i].1)));
            i += 1;
        }
        proof {
            use_type_invariant(&*self);
            lemma_entries_map_congruent(entries@, self.entries@);
            assert(distinct_actions(entries@));
        }
        OutcomeCache { entries }
    }
}

impl PartialEq for OutcomeCache {
    /// Two caches are equal exactly when they record the same outcomes for
    /// the same actions, whatever order the outcomes arrived in.
    fn eq(&self, other: &OutcomeCache) -> bool {
        let fwd = self.recorded_in(other);
        let bwd = other.recorded_in(self);
        let r = fwd && bwd;
        proof {
            if r {
                assert forall|k: u64| #![trigger self@.dom().contains(k)]
                    #![trigger other@.dom().contains(k)]
                    self@.dom().contains(k) <==> other@.dom().contains(k) by {
                }
                assert forall|k: u64| self@.dom().contains(k) implies #[trigger] self@[k]
                    == other@[k] by {
                }
                assert(self@ =~= other@);
            }
            if !r {
                assert(self@ != other@) by {
                    if self@ == other@ {
                        assert(fwd);
                        assert(bwd);
                    }
                }
            }
        }
        r
    }
}

impl vstd::std_specs::cmp::PartialEqSpecImpl for OutcomeCache {
    open spec fn obeys_eq_spec() -> bool {
        true
    }

    open spec fn eq_spec(&self, other: &OutcomeCache) -> bool {
        self@ == other@
    }
}

} // verus!
