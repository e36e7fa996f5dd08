//! The metadata index: entity-attribute-value triples.
//!
//! The index is a store of `(entity, attribute, value)` triples, queryable
//! by any combination of the three fields with the unspecified ones as
//! wildcards. The DHT slice uses it to index links: a link is encoded as a
//! triple whose entity is the base address, whose attribute is the tag under
//! the reserved `link__` prefix, and whose value is the target address.
//!
//! The store collapses duplicates by full triple equality: its mathematical
//! content is a set of triples, and that set is the store's view. The
//! concrete representation keeps one entry per distinct triple.

use vstd::prelude::*;
use crate::error::DhtError;
use crate::link::Address;

verus! {

/// Mathematical image of a triple: the three character sequences.
#[verifier::ext_equal]
pub struct EavView {
    pub entity: Seq<char>,
    pub attribute: Seq<char>,
    pub value: Seq<char>,
}

/// One metadata record: a directed relation from an entity address to a
/// value address, qualified by a textual attribute.
#[derive(Debug)]
pub struct EntityAttributeValue {
    entity: Address,
    attribute: String,
    value: Address,
}

impl View for EntityAttributeValue {
    type V = EavView;

    closed spec fn view(&self) -> EavView {
        EavView { entity: self.entity@, attribute: self.attribute@, value: self.value@ }
    }
}

impl EntityAttributeValue {
    pub fn new(entity: Address, attribute: String, value: Address) -> (r: EntityAttributeValue)
        ensures
            r@ == (EavView { entity: entity@, attribute: attribute@, value: value@ }),
    {
        let r = EntityAttributeValue { entity, attribute, value };
        proof {
            assert(r@ =~= (EavView { entity: r.entity@, attribute: r.attribute@, value: r.value@ }));
        }
        r
    }

    pub fn entity(&self) -> (r: &Address)
        ensures
            r@ == self@.entity,
    {
        &self.entity
    }

    pub fn attribute(&self) -> (r: &String)
        ensures
            r@ == self@.attribute,
    {
        &self.attribute
    }

    pub fn value(&self) -> (r: &Address)
        ensures
            r@ == self@.value,
    {
        &self.value
    }
}

impl Clone for EntityAttributeValue {
    fn clone(&self) -> (r: Self)
        ensures
            r@ == self@,
    {
        let c = EntityAttributeValue {
            entity: self.entity.clone(),
            attribute: self.attribute.clone(),
            value: self.value.clone(),
        };
        proof {
            assert(c@ =~= self@);
        }
        c
    }
}

impl PartialEq for EntityAttributeValue {
    fn eq(&self, other: &EntityAttributeValue) -> bool {
        let r = self.entity.eq(&other.entity) && self.attribute.eq(&other.attribute)
            && self.value.eq(&other.value);
        proof {
            if r {
                assert(self@ =~= other@);
            }
        }
        r
    }
}

impl vstd::std_specs::cmp::PartialEqSpecImpl for EntityAttributeValue {
    open spec fn obeys_eq_spec() -> bool {
        true
    }

    open spec fn eq_spec(&self, other: &EntityAttributeValue) -> bool {
        self@ == other@
    }
}

/// The set of triple views held by a sequence of records.
pub open spec fn eavs_as_set(s: Seq<EntityAttributeValue>) -> Set<EavView> {
    Set::new(|v: EavView| exists|i: int| 0 <= i < s.len() && s[i]@ == v)
}

/// No two records of the sequence denote the same triple.
pub open spec fn distinct_eavs(s: Seq<EntityAttributeValue>) -> bool {
    forall|i: int, j: int|
        #![trigger s[i], s[j]]
        0 <= i < s.len() && 0 <= j < s.len() && i != j ==> s[i]@ != s[j]@
}

/// Whether a triple satisfies a wildcard query: a `None` field matches
/// everything, a `Some` field must be equal.
pub open spec fn eav_matches(
    v: EavView,
    entity: Option<Seq<char>>,
    attribute: Option<Seq<char>>,
    value: Option<Seq<char>>,
) -> bool {
    &&& match entity {
        Some(e) => v.entity == e,
        None => true,
    }
    &&& match attribute {
        Some(a) => v.attribute == a,
        None => true,
    }
    &&& match value {
        Some(w) => v.value == w,
        None => true,
    }
}

/// The result of a wildcard query over a set of triples.
pub open spec fn fetch_set(
    s: Set<EavView>,
    entity: Option<Seq<char>>,
    attribute: Option<Seq<char>>,
    value: Option<Seq<char>>,
) -> Set<EavView> {
    s.filter(|v: EavView| eav_matches(v, entity, attribute, value))
}

/// The view of an optional address query field.
pub open spec fn opt_address_view(o: Option<Address>) -> Option<Seq<char>> {
    match o {
        Some(a) => Some(a@),
        None => None,
    }
}

/// The view of an optional attribute query field.
pub open spec fn opt_string_view(o: Option<String>) -> Option<Seq<char>> {
    match o {
        Some(s) => Some(s@),
        None => None,
    }
}

/// An in-memory metadata index store.
///
/// The surrounding runtime treats the metadata store as a long-lived engine
/// shared between state slices; this store is the verified model of that
/// engine's contract: insertion, removal and wildcard queries over a set of
/// triples. Every operation reports its outcome, and on this in-memory
/// store every operation succeeds.
#[derive(Debug)]
pub struct EavStorage {
    entries: Vec<EntityAttributeValue>,
}

impl View for EavStorage {
    type V = Set<EavView>;

    closed spec fn view(&self) -> Set<EavView> {
        eavs_as_set(self.entries@)
    }
}

impl EavStorage {
    #[verifier::type_invariant]
    spec fn wf(self) -> bool {
        distinct_eavs(self.entries@)
    }

    /// Creates an empty index.
    pub fn new() -> (r: EavStorage)
        ensures
            r@ == Set::<EavView>::empty(),
    {
        let r = EavStorage { entries: Vec::new() };
        proof {
            assert(r@ =~= Set::<EavView>::empty());
        }
        r
    }

    /// Whether the store holds this exact triple.
    pub fn contains_eav(&self, eav: &EntityAttributeValue) -> (r: bool)
        ensures
            r == self@.contains(eav@),
    {
        let mut i: usize = 0;
        while i < self.entries.len()
            invariant
                i <= self.entries@.len(),
                forall|k: int| 0 <= k < i ==> self.entries@[k]@ != eav@,
            decreases self.entries@.len() - i,
        {
            if self.entries[i].eq(eav) {
                proof {
                    assert(self.entries@[i as int]@ == eav@);
                    assert(self@.contains(eav@));
                }
                return true;
            }
            i += 1;
        }
        proof {
            assert(!self@.contains(eav@));
        }
        false
    }

    /// Inserts a triple. Duplicates by full triple equality collapse: the
    /// store's content afterwards is its old content plus this triple, and
    /// no existing triple is modified. On this in-memory store insertion
    /// always succeeds.
    pub fn add_eav(&mut self, eav: &EntityAttributeValue) -> (r: Result<(), DhtError>)
        ensures
            r is Ok,
            final(self)@ == old(self)@.insert(eav@),
    {
        proof {
            use_type_invariant(&*self);
        }
        if self.contains_eav(eav) {
            proof {
                assert(old(self)@.insert(eav@) =~= old(self)@);
            }
            Ok(())
        } else {
            let mut entries: Vec<EntityAttributeValue> = Vec::new();
            std::mem::swap(&mut entries, &mut self.entries);
            entries.push(eav.clone());
            proof {
                assert(distinct_eavs(entries@)) by {
                    assert(forall|k: int| 0 <= k < entries@.len() - 1
                        ==> #[trigger] entries@[k]@ == old(self).entries@[k]@);
                    assert(forall|k: int| 0 <= k < entries@.len() - 1 ==> entries@[k]@ != eav@)
                        by {
                        assert forall|k: int| 0 <= k < entries@.len() - 1 implies entries@[k]@
                            != eav@ by {
                            assert(old(self)@.contains(old(self).entries@[k]@));
                        }
                    }
                }
            }
            self.entries = entries;
            proof {
                assert forall|v: EavView| final(self)@.contains(v) implies old(self)@.insert(eav@).contains(v) by {
                    let i = choose|i: int|
                        0 <= i < final(self).entries@.len() && final(self).entries@[i]@ == v;
                    if i < old(self).entries@.len() {
                        assert(old(self)@.contains(v));
                    }
                }
                assert forall|v: EavView| old(self)@.insert(eav@).contains(v) implies final(self)@.contains(v) by {
                    if v == eav@ {
                        assert(final(self).entries@[final(self).entries@.len() - 1]@ == v);
                    } else {
                        let i = choose|i: int|
                            0 <= i < old(self).entries@.len() && old(self).entries@[i]@ == v;
                        assert(final(self).entries@[i]@ == v);
                    }
                }
                assert(final(self)@ =~= old(self)@.insert(eav@));
            }
            Ok(())
        }
    }

    /// Removes the exact triple, if present. The store's content afterwards
    /// is its old content minus this triple; every other triple is kept. On
    /// this in-memory store removal always succeeds.
    pub fn remove_eav(&mut self, eav: &EntityAttributeValue) -> (r: Result<(), DhtError>)
        ensures
            r is Ok,
            final(self)@ == old(self)@.remove(eav@),
    {
        proof {
            use_type_invariant(&*self);
        }
        let mut entries: Vec<EntityAttributeValue> = Vec::new();
        std::mem::swap(&mut entries, &mut self.entries);
        let mut kept: Vec<EntityAttributeValue> = Vec::new();
        let mut i: usize = 0;
        while i < entries.len()
            invariant
                i <= entries@.len(),
                distinct_eavs(entries@),
                entries@ == old(self).entries@,
                forall|k: int|
                    0 <= k < kept@.len()
                        ==> #[trigger] kept@[k]@ != eav@,
                forall|k: int|
                    0 <= k < kept@.len()
                        ==> exists|j: int| 0 <= j < i && entries@[j]@ == #[trigger] kept@[k]@,
                forall|j: int|
                    0 <= j < i && #[trigger] entries@[j]@ != eav@
                        ==> exists|k: int| 0 <= k < kept@.len() && kept@[k]@ == entries@[j]@,
                distinct_eavs(kept@),
            decreases entries@.len() - i,
        {
            if !entries[i].eq(eav) {
                proof {
                    assert forall|k: int| 0 <= k < kept@.len() implies #[trigger] kept@[k]@
                        != entries@[i as int]@ by {
                        let j = choose|j: int| 0 <= j < i && entries@[j]@ == kept@[k]@;
                    }
                }
                let ghost kept0 = kept@;
                kept.push(entries[i].clone());
                proof {
                    assert forall|j: int| 0 <= j < i + 1 && #[trigger] entries@[j]@ != eav@
                        implies exists|k: int|
                            0 <= k < kept@.len() && kept@[k]@ == entries@[j]@ by {
                        if j < i {
                            let k = choose|k: int|
                                0 <= k < kept0.len() && kept0[k]@ == entries@[j]@;
                            assert(kept@[k]@ == entries@[j]@);
                        } else {
                            assert(kept@[kept@.len() - 1]@ == entries@[j]@);
                        }
                    }
                }
            }
            i += 1;
        }
        self.entries = kept;
        proof {
            assert forall|v: EavView| final(self)@.contains(v) implies old(self)@.remove(eav@).contains(v) by {
                let k = choose|k: int|
                    0 <= k < final(self).entries@.len() && final(self).entries@[k]@ == v;
                let j = choose|j: int|
                    0 <= j < old(self).entries@.len() && old(self).entries@[j]@ == v;
                assert(old(self)@.contains(v));
            }
            assert forall|v: EavView| old(self)@.remove(eav@).contains(v) implies final(self)@.contains(v) by {
                let j = choose|j: int|
                    0 <= j < old(self).entries@.len() && old(self).entries@[j]@ == v;
            }
            assert(final(self)@ =~= old(self)@.remove(eav@));
        }
        Ok(())
    }

    /// Queries the store with wildcards: each field given as `Some` must
    /// match exactly, each field left as `None` matches everything. Returns
    /// every stored triple that satisfies the query, each exactly once, as
    /// an unordered collection; an empty result is a normal outcome, not an
    /// error. On this in-memory store the query always succeeds.
    pub fn fetch_eav(
        &self,
        entity: Option<Address>,
        attribute: Option<String>,
        value: Option<Address>,
    ) -> (r: Result<Vec<EntityAttributeValue>, DhtError>)
        ensures
            r matches Ok(found) && eavs_as_set(found@) == fetch_set(
                self@,
                opt_address_view(entity),
                opt_string_view(attribute),
                opt_address_view(value),
            ) && distinct_eavs(found@),
    {
        let ghost ge = opt_address_view(entity);
        let ghost ga = opt_string_view(attribute);
        let ghost gv = opt_address_view(value);
        let mut found: Vec<EntityAttributeValue> = Vec::new();
        let mut i: usize = 0;
        proof {
            use_type_invariant(&*self);
        }
        while i < self.entries.len()
            invariant
                i <= self.entries@.len(),
                distinct_eavs(self.entries@),
                ge == opt_address_view(entity),
                ga == opt_string_view(attribute),
                gv == opt_address_view(value),
                forall|k: int|
                    0 <= k < found@.len()
                        ==> eav_matches(#[trigger] found@[k]@, ge, ga, gv),
                forall|k: int|
                    0 <= k < found@.len()
                        ==> exists|j: int| 0 <= j < i && self.entries@[j]@ == #[trigger] found@[k]@,
                forall|j: int|
                    0 <= j < i && eav_matches(#[trigger] self.entries@[j]@, ge, ga, gv)
                        ==> exists|k: int| 0 <= k < found@.len() && found@[k]@ == self.entries@[j]@,
                distinct_eavs(found@),
            decreases self.entries@.len() - i,
        {
            if Self::matches_query(&self.entries[i], &entity, &attribute, &value) {
                proof {
                    assert forall|k: int| 0 <= k < found@.len() implies #[trigger] found@[k]@
                        != self.entries@[i as int]@ by {
                        let j = choose|j: int| 0 <= j < i && self.entries@[j]@ == found@[k]@;
                    }
                }
                let ghost found0 = found@;
                found.push(self.entries[i].clone());
                proof {
                    assert forall|j: int|
                        0 <= j < i + 1 && eav_matches(#[trigger] self.entries@[j]@, ge, ga, gv)
                        implies exists|k: int|
                            0 <= k < found@.len() && found@[k]@ == self.entries@[j]@ by {
                        if j < i {
                            let k = choose|k: int|
                                0 <= k < found0.len() && found0[k]@ == self.entries@[j]@;
                            assert(found@[k]@ == self.entries@[j]@);
                        } else {
                            assert(found@[found@.len() - 1]@ == self.entries@[j]@);
                        }
                    }
                }
            }
            i += 1;
        }
        proof {
            assert forall|v: EavView| eavs_as_set(found@).contains(v) implies fetch_set(
                self@,
                ge,
                ga,
                gv,
            ).contains(v) by {
                let k = choose|k: int| 0 <= k < found@.len() && found@[k]@ == v;
                let j = choose|j: int|
                    0 <= j < self.entries@.len() && self.entries@[j]@ == found@[k]@;
                assert(self@.contains(v));
            }
            assert forall|v: EavView| fetch_set(self@, ge, ga, gv).contains(v) implies eavs_as_set(
                found@,
            ).contains(v) by {
                let j = choose|j: int| 0 <= j < self.entries@.len() && self.entries@[j]@ == v;
                let k = choose|k: int| 0 <= k < found@.len() && found@[k]@ == self.entries@[j]@;
                assert(found@[k]@ == v);
            }
            assert(eavs_as_set(found@) =~= fetch_set(self@, ge, ga, gv));
        }
        Ok(found)
    }

    /// Whether one record satisfies the wildcard query.
    fn matches_query(
        eav: &EntityAttributeValue,
        entity: &Option<Address>,
        attribute: &Option<String>,
        value: &Option<Address>,
    ) -> (r: bool)
        ensures
            r == eav_matches(
                eav@,
                opt_address_view(*entity),
                opt_string_view(*attribute),
                opt_address_view(*value),
            ),
    {
        let entity_ok = match entity {
            Some(e) => eav.entity().eq(e),
            None => true,
        };
        let attribute_ok = match attribute {
            Some(a) => eav.attribute().eq(a),
            None => true,
        };
        let value_ok = match value {
            Some(w) => eav.value().eq(w),
            None => true,
        };
        entity_ok && attribute_ok && value_ok
    }

    /// Whether every triple held by `other` is also held by `self`.
    fn contains_all(&self, other: &EavStorage) -> (r: bool)
        ensures
            r == other@.subset_of(self@),
    {
        let mut i: usize = 0;
        while i < other.entries.len()
            invariant
                i <= other.entries@.len(),
                forall|j: int| 0 <= j < i ==> self@.contains(#[trigger] other.entries@[j]@),
            decreases other.entries@.len() - i,
        {
            if !self.contains_eav(&other.entries[i]) {
                proof {
                    assert(other@.contains(other.entries@[i as int]@));
                }
                return false;
            }
            i += 1;
        }
        proof {
            assert forall|v: EavView| other@.contains(v) implies self@.contains(v) by {
                let j = choose|j: int|
                    0 <= j < other.entries@.len() && other.entries@[j]@ == v;
            }
        }
        true
    }
}

impl Clone for EavStorage {
    /// A clone holds exactly the triples of the original.
    fn clone(&self) -> (r: Self)
        ensures
            r@ == self@,
    {
        proof {
            use_type_invariant(&*self);
        }
        let mut entries: Vec<EntityAttributeValue> = Vec::new();
        let mut i: usize = 0;
        while i < self.entries.len()
            invariant
                i <= self.entries@.len(),
                entries@.len() == i,
                forall|k: int| 0 <= k < i ==> #[trigger] entries@[k]@ == self.entries@[k]@,
            decreases self.entries@.len() - i,
        {
            entries.push(self.entries[i].clone());
            i += 1;
        }
        proof {
            use_type_invariant(&*self);
            assert(distinct_eavs(entries@));
        }
        let c = EavStorage { entries };
        proof {
            assert forall|v: EavView| c@.contains(v) implies self@.contains(v) by {
                let k = choose|k: int| 0 <= k < c.entries@.len() && c.entries@[k]@ == v;
                assert(self.entries@[k]@ == v);
            }
            assert forall|v: EavView| self@.contains(v) implies c@.contains(v) by {
                let k = choose|k: int| 0 <= k < self.entries@.len() && self.entries@[k]@ == v;
                assert(c.entries@[k]@ == v);
            }
            assert(c@ =~= self@);
        }
        c
    }
}

impl PartialEq for EavStorage {
    /// Two stores are equal exactly when they hold the same set of triples,
    /// whatever order the triples arrived in.
    fn eq(&self, other: &EavStorage) -> bool {
        let fwd = self.contains_all(other);
        let bwd = other.contains_all(self);
        let r = fwd && bwd;
        proof {
            if r {
                assert(self@ =~= other@);
            }
            if !r {
                assert(self@ != other@) by {
                    if self@ == other@ {
                        assert(other@.subset_of(self@));
                        assert(self@.subset_of(other@));
                    }
                }
            }
        }
        r
    }
}

impl vstd::std_specs::cmp::PartialEqSpecImpl for EavStorage {
    open spec fn obeys_eq_spec() -> bool {
        true
    }

    open spec fn eq_spec(&self, other: &EavStorage) -> bool {
        self@ == other@
    }
}

} // verus!
