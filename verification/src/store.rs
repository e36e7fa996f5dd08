//! The DHT state slice.
//!
//! `DhtStore` owns the node's handle to content-addressable storage, its
//! metadata (entity-attribute-value) index, and the action-outcome cache
//! that makes link-mutation actions idempotent inside a reducer-driven
//! state machine. The slice is synchronous: it is invoked from within one
//! reducer step at a time, and whatever lock discipline shares the
//! surrounding state between components lives outside this crate.

use vstd::prelude::*;
use crate::actions::ActionWrapper;
use crate::actions::OutcomeCache;
use crate::actions::outcome_view;
use crate::eav::EavStorage;
use crate::eav::EavView;
use crate::eav::EntityAttributeValue;
use crate::eav::distinct_eavs;
use crate::eav::eavs_as_set;
use crate::eav::fetch_set;
use crate::error::DhtError;
use crate::error::DhtErrorView;
use crate::link::Link;
use crate::link::LinkView;
use crate::link::Address;
use crate::link::link_attribute;
use crate::link::link_attribute_spec;

verus! {

/// A handle to the node's content-addressable storage.
///
/// The storage engine itself — an append-only, deduplicating key-value
/// store keyed by content hash — is an external collaborator of this
/// slice: the slice never reads or writes content, it only keeps the
/// handle it was constructed with and hands it to reducers. What the slice
/// observes of a handle is the logical identity of the store it refers to,
/// which is what snapshot comparison uses: two handles are interchangeable
/// exactly when they refer to the same logical store, not the same memory.
#[derive(Clone, Copy, Debug, PartialEq, Eq, Structural, Hash)]
pub struct ContentStorage {
    id: u64,
}

impl View for ContentStorage {
    type V = u64;

    closed spec fn view(&self) -> u64 {
        self.id
    }
}

impl ContentStorage {
    /// Wraps the logical identity of an externally-owned store.
    pub fn new(id: u64) -> (r: ContentStorage)
        ensures
            r@ == id,
    {
        ContentStorage { id }
    }

    /// The logical identity of the store this handle refers to.
    pub fn get_id(&self) -> (r: u64)
        ensures
            r == self@,
    {
        self.id
    }
}

/// Mathematical image of the state slice: the content store's identity,
/// the set of indexed triples, and the recorded action outcomes.
#[verifier::ext_equal]
pub struct DhtStoreView {
    pub content_id: u64,
    pub meta: Set<EavView>,
    pub add_link_actions: Map<u64, Result<(), DhtErrorView>>,
}

/// The triple that encodes a link in the metadata index: entity is the
/// base, attribute is the tag under the reserved `link__` prefix, value is
/// the target.
pub open spec fn link_eav_view(l: LinkView) -> EavView {
    EavView { entity: l.base, attribute: link_attribute_spec(l.tag), value: l.target }
}

/// Every triple indexed under this base address and tag.
pub open spec fn links_of(meta: Set<EavView>, base: Seq<char>, tag: Seq<char>) -> Set<EavView> {
    fetch_set(meta, Some(base), Some(link_attribute_spec(tag)), None)
}

/// Adding a link appends its encoding triple to the metadata index and
/// touches nothing else.
pub open spec fn add_link_transition(s: DhtStoreView, l: LinkView) -> DhtStoreView {
    DhtStoreView { meta: s.meta.insert(link_eav_view(l)), ..s }
}

/// Removing a link deletes exactly its encoding triple from the metadata
/// index and touches nothing else; content remains addressable.
pub open spec fn remove_link_transition(s: DhtStoreView, l: LinkView) -> DhtStoreView {
    DhtStoreView { meta: s.meta.remove(link_eav_view(l)), ..s }
}

/// Recording an outcome is write-once: a terminally processed action keeps
/// its first recorded outcome forever.
pub open spec fn record_outcome_transition(
    s: DhtStoreView,
    action_id: u64,
    outcome: Result<(), DhtErrorView>,
) -> DhtStoreView {
    if s.add_link_actions.dom().contains(action_id) {
        s
    } else {
        DhtStoreView { add_link_actions: s.add_link_actions.insert(action_id, outcome), ..s }
    }
}

/// One reducer step for an add-link action: a replay of an already
/// processed action identity changes nothing; a fresh identity indexes the
/// link and records success.
pub open spec fn reduce_add_link_transition(
    s: DhtStoreView,
    action_id: u64,
    l: LinkView,
) -> DhtStoreView {
    if s.add_link_actions.dom().contains(action_id) {
        s
    } else {
        DhtStoreView {
            content_id: s.content_id,
            meta: s.meta.insert(link_eav_view(l)),
            add_link_actions: s.add_link_actions.insert(action_id, Ok(())),
        }
    }
}

/// The state slice for the DHT: holds the agent's local shard handles and
/// the bookkeeping for idempotent link mutation.
#[derive(Debug)]
pub struct DhtStore {
    content_storage: ContentStorage,
    meta_storage: EavStorage,
    add_link_actions: OutcomeCache,
}

impl View for DhtStore {
    type V = DhtStoreView;

    closed spec fn view(&self) -> DhtStoreView {
        DhtStoreView {
            content_id: self.content_storage@,
            meta: self.meta_storage@,
            add_link_actions: self.add_link_actions@,
        }
    }
}

impl DhtStore {
    /// Wraps two externally-owned, already-initialized storage handles with
    /// an empty action-outcome cache. Performs no storage access.
    pub fn new(content_storage: ContentStorage, meta_storage: EavStorage) -> (r: DhtStore)
        ensures
            r@.content_id == content_storage@,
            r@.meta == meta_storage@,
            r@.add_link_actions == Map::<u64, Result<(), DhtErrorView>>::empty(),
    {
        DhtStore { content_storage, meta_storage, add_link_actions: OutcomeCache::new() }
    }

    /// Encodes the link as a metadata triple and persists it into the
    /// metadata index; the content referenced by base and target is assumed
    /// to already exist in content storage, which this operation does not
    /// verify. Exactly one new triple is indexed and no existing triple is
    /// modified; on this in-memory index the operation always succeeds.
    pub fn add_link(&mut self, link: &Link) -> (r: Result<(), DhtError>)
        ensures
            r is Ok,
            final(self)@ == add_link_transition(old(self)@, link@),
    {
        let ghost pre = self@;
        let attribute = link_attribute(link.tag());
        let eav = EntityAttributeValue::new(link.base().clone(), attribute, link.target().clone());
        let res = self.meta_storage.add_eav(&eav);
        proof {
            assert(eav@ =~= link_eav_view(link@));
            assert(self@ =~= add_link_transition(pre, link@));
        }
        res
    }

    /// Logically deletes a link: the triple keyed by the same base,
    /// prefixed tag and target that insertion used is removed from the
    /// metadata index. Content storage is untouched — the content both
    /// addresses refer to stays immutable and addressable even when no
    /// longer linked. The delete removes the index triple rather than
    /// writing a tombstone, so a query after removal simply no longer sees
    /// the edge; replication layers that need tombstones record them
    /// outside this slice. On this in-memory index the operation always
    /// succeeds.
    pub fn remove_link(&mut self, link: &Link) -> (r: Result<(), DhtError>)
        ensures
            r is Ok,
            final(self)@ == remove_link_transition(old(self)@, link@),
    {
        let ghost pre = self@;
        let attribute = link_attribute(link.tag());
        let eav = EntityAttributeValue::new(link.base().clone(), attribute, link.target().clone());
        let res = self.meta_storage.remove_eav(&eav);
        proof {
            assert(eav@ =~= link_eav_view(link@));
            assert(self@ =~= remove_link_transition(pre, link@));
        }
        res
    }

    /// Every triple indexed for this base address under this tag, each
    /// exactly once, in no meaningful order. An address with no links under
    /// the tag yields the empty result, not an error; on this in-memory
    /// index the query always succeeds, and a storage failure would be
    /// propagated unchanged.
    pub fn get_links(&self, address: Address, tag: String) -> (r: Result<
        Vec<EntityAttributeValue>,
        DhtError,
    >)
        ensures
            r matches Ok(found) && eavs_as_set(found@) == links_of(self@.meta, address@, tag@)
                && distinct_eavs(found@),
    {
        let ghost base = address@;
        let ghost tg = tag@;
        let attribute = link_attribute(&tag);
        let res = self.meta_storage.fetch_eav(Some(address), Some(attribute), None);
        proof {
            assert(res matches Ok(found) && eavs_as_set(found@) == links_of(
                self@.meta,
                base,
                tg,
            ) && distinct_eavs(found@));
        }
        res
    }

    /// The content-storage handle, for reducers; copying the handle shares
    /// the same logical store.
    pub fn content_storage(&self) -> (r: ContentStorage)
        ensures
            r@ == self@.content_id,
    {
        self.content_storage
    }

    /// The metadata index, for reducers.
    pub fn meta_storage(&self) -> (r: &EavStorage)
        ensures
            r@ == self@.meta,
    {
        &self.meta_storage
    }

    /// Read-only view of the action-outcome cache.
    pub fn add_link_actions(&self) -> (r: &OutcomeCache)
        ensures
            r@ == self@.add_link_actions,
    {
        &self.add_link_actions
    }

    /// The recorded outcome of one add-link action, if that action has been
    /// terminally processed.
    pub fn add_link_action_outcome(&self, action: &ActionWrapper) -> (r: Option<
        &Result<(), DhtError>,
    >)
        ensures
            match r {
                Some(o) => self@.add_link_actions.dom().contains(action.id) && outcome_view(*o)
                    == self@.add_link_actions[action.id],
                None => !self@.add_link_actions.dom().contains(action.id),
            },
    {
        self.add_link_actions.get(action)
    }

    /// Records the terminal outcome of an add-link action, once: the
    /// reducer-internal path that makes replays observable as the original
    /// result. A second record under the same identity leaves the cache
    /// untouched.
    pub fn record_add_link_action(&mut self, action: &ActionWrapper, outcome: Result<(), DhtError>)
        ensures
            final(self)@ == record_outcome_transition(
                old(self)@,
                action.id,
                outcome_view(outcome),
            ),
    {
        let ghost pre = self@;
        let ghost ov = outcome_view(outcome);
        self.add_link_actions.record(action, outcome);
        proof {
            assert(self@ =~= record_outcome_transition(pre, action.id, ov));
        }
    }

    /// Applies one add-link action as a reducer step: if the action's
    /// identity already has a recorded outcome the slice is left untouched
    /// — the side effect is not re-applied on a replay — otherwise the link
    /// is indexed and success is recorded under the identity.
    pub fn reduce_add_link(&mut self, action: &ActionWrapper, link: &Link)
        ensures
            final(self)@ == reduce_add_link_transition(old(self)@, action.id, link@),
    {
        let ghost pre = self@;
        if self.contains_add_link_action(action) {
        } else {
            let res = self.add_link(link);
            proof {
                assert(outcome_view(res) == Ok::<(), DhtErrorView>(()));
            }
            self.record_add_link_action(action, res);
            proof {
                assert(self@ =~= reduce_add_link_transition(pre, action.id, link@));
            }
        }
    }

    /// Whether this add-link action already has a recorded outcome.
    pub fn contains_add_link_action(&self, action: &ActionWrapper) -> (r: bool)
        ensures
            r == self@.add_link_actions.dom().contains(action.id),
    {
        self.add_link_actions.contains_action(action)
    }
}

impl Clone for DhtStore {
    /// Cloning the slice — done whenever the surrounding global state is
    /// cloned for snapshotting — yields a slice over the same logical
    /// storage contents and the same recorded outcomes.
    fn clone(&self) -> (r: Self)
        ensures
            r@ == self@,
    {
        let c = DhtStore {
            content_storage: self.content_storage,
            meta_storage: self.meta_storage.clone(),
            add_link_actions: self.add_link_actions.clone(),
        };
        proof {
            assert(c@ =~= self@);
        }
        c
    }
}

impl PartialEq for DhtStore {
    /// Snapshot equality: the outcome caches are equal by value, the
    /// content-storage handles refer to stores with the same logical
    /// identity, and the metadata stores hold the same triples. Intended
    /// for state-snapshot comparison, not hot-path use.
    fn eq(&self, other: &DhtStore) -> bool {
        let r = self.add_link_actions.eq(&other.add_link_actions) && self.content_storage.get_id()
            == other.content_storage.get_id() && self.meta_storage.eq(&other.meta_storage);
        proof {
            if r {
                assert(self@ =~= other@);
            }
            if !r {
                assert(self@ != other@) by {
                    if self@ == other@ {
                        assert(self@.add_link_actions == other@.add_link_actions);
                        assert(self@.content_id == other@.content_id);
                        assert(self@.meta == other@.meta);
                    }
                }
            }
        }
        r
    }
}

impl vstd::std_specs::cmp::PartialEqSpecImpl for DhtStore {
    open spec fn obeys_eq_spec() -> bool {
        true
    }

    open spec fn eq_spec(&self, other: &DhtStore) -> bool {
        self@ == other@
    }
}

} // verus!
