//! Addresses and links.
//!
//! An `Address` is the opaque, content-hash-derived identifier of an
//! immutable stored entry. A `Link` is an immutable value object describing
//! a directed, tagged edge between two addresses. Links are indexed in the
//! metadata store as entity-attribute-value triples whose attribute is the
//! tag under the reserved `link__` namespace prefix; that encoding lives
//! here so the prefix convention stays in one place.

use vstd::prelude::*;

verus! {

/// Content-hash-derived identifier of a stored entry. Two entries with
/// identical canonical content always carry the same address; the hash is
/// computed by the content-addressable backend, never assigned here, so
/// this slice treats it as an opaque string.
#[derive(Debug)]
pub struct Address {
    hash: String,
}

impl View for Address {
    type V = Seq<char>;

    closed spec fn view(&self) -> Seq<char> {
        self.hash@
    }
}

impl Address {
    /// Wraps an already-computed content hash.
    pub fn new(hash: String) -> (r: Address)
        ensures
            r@ == hash@,
    {
        Address { hash }
    }

    /// The textual form of the hash.
    pub fn as_str(&self) -> (r: &str)
        ensures
            r@ == self@,
    {
        self.hash.as_str()
    }
}

impl Clone for Address {
    fn clone(&self) -> (r: Self)
        ensures
            r@ == self@,
    {
        Address { hash: self.hash.clone() }
    }
}

impl PartialEq for Address {
    fn eq(&self, other: &Address) -> bool {
        self.hash.eq(&other.hash)
    }
}

impl vstd::std_specs::cmp::PartialEqSpecImpl for Address {
    open spec fn obeys_eq_spec() -> bool {
        true
    }

    open spec fn eq_spec(&self, other: &Address) -> bool {
        self@ == other@
    }
}

/// Mathematical image of a `Link`: the three character sequences that
/// identify the edge.
#[verifier::ext_equal]
pub struct LinkView {
    pub base: Seq<char>,
    pub target: Seq<char>,
    pub tag: Seq<char>,
}

/// A directed, tagged edge from `base` to `target`, disambiguated by `tag`.
/// Links are immutable value objects; removal is a logical delete recorded
/// in the metadata index, never a mutation of an existing link.
#[derive(Debug)]
pub struct Link {
    base: Address,
    target: Address,
    tag: String,
}

impl View for Link {
    type V = LinkView;

    closed spec fn view(&self) -> LinkView {
        LinkView { base: self.base@, target: self.target@, tag: self.tag@ }
    }
}

impl Link {
    pub fn new(base: Address, target: Address, tag: String) -> (r: Link)
        ensures
            r@.base == base@,
            r@.target == target@,
            r@.tag == tag@,
    {
        Link { base, target, tag }
    }

    /// The address the edge points from.
    pub fn base(&self) -> (r: &Address)
        ensures
            r@ == self@.base,
    {
        &self.base
    }

    /// The address the edge points to.
    pub fn target(&self) -> (r: &Address)
        ensures
            r@ == self@.target,
    {
        &self.target
    }

    /// The tag that disambiguates edges sharing the same base.
    pub fn tag(&self) -> (r: &String)
        ensures
            r@ == self@.tag,
    {
        &self.tag
    }
}

impl Clone for Link {
    fn clone(&self) -> (r: Self)
        ensures
            r@ == self@,
    {
        let c = Link { base: self.base.clone(), target: self.target.clone(), tag: self.tag.clone() };
        proof {
            assert(c@ =~= self@);
        }
        c
    }
}

impl PartialEq for Link {
    fn eq(&self, other: &Link) -> bool {
        let r = self.base.eq(&other.base) && self.target.eq(&other.target) && self.tag.eq(&other.tag);
        proof {
            if r {
                assert(self@ =~= other@);
            }
        }
        r
    }
}

impl vstd::std_specs::cmp::PartialEqSpecImpl for Link {
    open spec fn obeys_eq_spec() -> bool {
        true
    }

    open spec fn eq_spec(&self, other: &Link) -> bool {
        self@ == other@
    }
}

/// The metadata attribute under which a link with this tag is indexed: the
/// tag prefixed with the reserved `link__` namespace. The prefix is reserved
/// exclusively for link encoding; no other use of the metadata store may
/// produce attributes in this namespace.
pub open spec fn link_attribute_spec(tag: Seq<char>) -> Seq<char> {
    "link__"@ + tag
}

/// Builds the indexing attribute for a tag.
pub fn link_attribute(tag: &String) -> (r: String)
    ensures
        r@ == link_attribute_spec(tag@),
{
    let prefix = String::from_str("link__");
    prefix.concat(tag.as_str())
}

} // verus!
