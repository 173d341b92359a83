//! The per-domain resolution record and the ordered result collection.

use vstd::prelude::*;

use crate::json::{json_document, spec_json_document};

verus! {

/// Ghost image of a [`Domain`]: the name as a character sequence together
/// with the resolution outcome.
pub struct DomainView {
    pub name: Seq<char>,
    pub resolved: bool,
}

/// One resolution record: a fully-qualified domain name and whether it
/// currently resolves.  Created exactly once per validated domain and never
/// mutated afterwards.
pub struct Domain {
    pub name: String,
    pub resolved: bool,
}

impl View for Domain {
    type V = DomainView;

    open spec fn view(&self) -> DomainView {
        DomainView { name: self.name@, resolved: self.resolved }
    }
}

impl Domain {
    /// Pairs a name with its resolution outcome.
    pub fn new(name: String, resolved: bool) -> (r: Self)
        ensures
            r@.name == name@,
            r@.resolved == resolved,
    {
        Self { name, resolved }
    }

    /// The per-domain resolution policy: a domain counts as resolved when
    /// either of its two record-type lookups succeeded; a failed lookup of
    /// one type does not override a success of the other.
    pub fn from_lookups(name: String, ipv4_ok: bool, ipv6_ok: bool) -> (r: Self)
        ensures
            r@.name == name@,
            r@.resolved == (ipv4_ok || ipv6_ok),
    {
        Self { name, resolved: ipv4_ok || ipv6_ok }
    }
}

/// The append-only, insertion-ordered collection of resolution records.
pub struct DomainNames {
    pub domains: Vec<Domain>,
}

impl View for DomainNames {
    type V = Seq<DomainView>;

    open spec fn view(&self) -> Seq<DomainView> {
        self.domains@.map_values(|d: Domain| d@)
    }
}

impl DomainNames {
    /// An empty collection.
    pub fn new() -> (r: Self)
        ensures
            r@ == Seq::<DomainView>::empty(),
    {
        let r = Self { domains: Vec::<Domain>::new() };
        proof {
            assert(r@ =~= Seq::<DomainView>::empty());
        }
        r
    }

    /// Appends one record; everything recorded before keeps its place.
    pub fn add(&mut self, domain: Domain)
        ensures
            final(self)@ == old(self)@.push(domain@),
    {
        let ghost dv = domain@;
        self.domains.push(domain);
        proof {
            assert(self@ =~= old(self)@.push(dv));
        }
    }

    /// Renders the collection as the pretty-printed JSON document.
    pub fn to_json(&self) -> (r: String)
        ensures
            r@ == spec_json_document(self@),
    {
        json_document(&self.domains)
    }
}

} // verus!
