//! Proved laws of the state slice.
//!
//! Each proof function here states a guarantee that relates several of the
//! slice's operations, over the same mathematical views that the
//! operations' own contracts use.

use vstd::prelude::*;
use crate::eav::EavView;
use crate::error::DhtErrorView;
use crate::link::LinkView;
use crate::link::link_attribute_spec;
use crate::store::DhtStoreView;
use crate::store::add_link_transition;
use crate::store::link_eav_view;
use crate::store::links_of;
use crate::store::record_outcome_transition;
use crate::store::reduce_add_link_transition;
use crate::store::remove_link_transition;

verus! {

/// A successfully added link is queryable: after adding a link — directly,
/// or through a reducer step whose action identity was not yet processed —
/// the query for the link's base address and tag returns a set containing
/// the triple that encodes the link.
pub proof fn lemma_added_link_is_queryable(s: DhtStoreView, a: u64, l: LinkView)
    ensures
        links_of(add_link_transition(s, l).meta, l.base, l.tag).contains(link_eav_view(l)),
        !s.add_link_actions.dom().contains(a) ==> links_of(
            reduce_add_link_transition(s, a, l).meta,
            l.base,
            l.tag,
        ).contains(link_eav_view(l)),
{
    assert(add_link_transition(s, l).meta.contains(link_eav_view(l)));
    if !s.add_link_actions.dom().contains(a) {
        assert(reduce_add_link_transition(s, a, l).meta.contains(link_eav_view(l)));
    }
}

/// An address with no link indexed under a tag yields the empty set for
/// that tag — a normal outcome, not an error. In particular a slice whose
/// metadata store has seen no successful link addition for the pair at all
/// has nothing to return for it.
pub proof fn lemma_unlinked_address_has_no_links(meta: Set<EavView>, base: Seq<char>, tag: Seq<char>)
    requires
        forall|t: EavView|
            meta.contains(t) ==> !(t.entity == base && t.attribute == link_attribute_spec(tag)),
    ensures
        links_of(meta, base, tag) == Set::<EavView>::empty(),
{
    assert(links_of(meta, base, tag) =~= Set::<EavView>::empty());
}

/// Once an action has a recorded outcome, every later operation of the
/// slice — adding or removing links, recording outcomes of other actions,
/// replaying any action — leaves that recorded outcome in place unchanged.
pub proof fn lemma_recorded_outcome_stable(
    s: DhtStoreView,
    a: u64,
    b: u64,
    o: Result<(), DhtErrorView>,
    l: LinkView,
)
    requires
        s.add_link_actions.dom().contains(a),
    ensures
        add_link_transition(s, l).add_link_actions == s.add_link_actions,
        remove_link_transition(s, l).add_link_actions == s.add_link_actions,
        record_outcome_transition(s, b, o).add_link_actions.dom().contains(a),
        record_outcome_transition(s, b, o).add_link_actions[a] == s.add_link_actions[a],
        reduce_add_link_transition(s, b, l).add_link_actions.dom().contains(a),
        reduce_add_link_transition(s, b, l).add_link_actions[a] == s.add_link_actions[a],
{
}

/// Two slices over logically identical storage contents and outcome caches
/// are equal as snapshots; indexing a fresh triple into either metadata
/// store breaks that equality.
pub proof fn lemma_metadata_mutation_breaks_equality(
    s1: DhtStoreView,
    s2: DhtStoreView,
    l: LinkView,
)
    requires
        s1 == s2,
        !s1.meta.contains(link_eav_view(l)),
    ensures
        add_link_transition(s1, l) != s2,
{
    assert(add_link_transition(s1, l).meta.contains(link_eav_view(l)));
}

/// Removing a link removes exactly the targeted edge: the encoding triple
/// is gone, every other triple — in particular every other edge from the
/// same base under the same tag — is untouched, and neither the content
/// handle nor the outcome cache changes.
pub proof fn lemma_remove_link_is_exact(s: DhtStoreView, l: LinkView)
    ensures
        !remove_link_transition(s, l).meta.contains(link_eav_view(l)),
        forall|t: EavView|
            t != link_eav_view(l) ==> (remove_link_transition(s, l).meta.contains(t)
                <==> s.meta.contains(t)),
        remove_link_transition(s, l).content_id == s.content_id,
        remove_link_transition(s, l).add_link_actions == s.add_link_actions,
{
}

/// Replaying an add-link action under the identity it was first applied
/// with changes nothing: after the first reducer step the identity has a
/// recorded outcome, so the second step neither indexes the triple again
/// nor touches the cache.
pub proof fn lemma_reduce_add_link_idempotent(s: DhtStoreView, a: u64, l: LinkView)
    ensures
        reduce_add_link_transition(reduce_add_link_transition(s, a, l), a, l)
            == reduce_add_link_transition(s, a, l),
{
    assert(reduce_add_link_transition(s, a, l).add_link_actions.dom().contains(a));
}

} // verus!
