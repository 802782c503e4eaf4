//! The set of textual forms requested for a link.

use vstd::prelude::*;

verus! {

/// One textual form of a link.
#[derive(Clone, Copy, Debug, PartialEq, Eq, Structural)]
pub enum LinkWrite {
    /// `[text](url "title")`
    InlineLink,
    /// `[text][label]`
    ReferenceLink,
    /// `[label]: url "title"`
    ReferenceDefinition,
    /// `[![alt][badge-label]][label]`
    LinkWithBadge,
    /// the definition of the link's label and that of its badge
    BadgeReferenceDefinition,
}

impl LinkWrite {
    /// The bit that stands for this form in a [`LinkWriteFlags`].
    pub open spec fn spec_bit(self) -> u8 {
        match self {
            LinkWrite::InlineLink => 1u8,
            LinkWrite::ReferenceLink => 2u8,
            LinkWrite::ReferenceDefinition => 4u8,
            LinkWrite::LinkWithBadge => 8u8,
            LinkWrite::BadgeReferenceDefinition => 16u8,
        }
    }

    /// The bit that stands for this form in a [`LinkWriteFlags`].
    #[verifier::when_used_as_spec(spec_bit)]
    pub fn bit(self) -> (b: u8)
        ensures
            b == self.spec_bit(),
    {
        match self {
            LinkWrite::InlineLink => 1u8,
            LinkWrite::ReferenceLink => 2u8,
            LinkWrite::ReferenceDefinition => 4u8,
            LinkWrite::LinkWithBadge => 8u8,
            LinkWrite::BadgeReferenceDefinition => 16u8,
        }
    }

    /// Whether this form is a link, as opposed to a definition.
    pub open spec fn is_link_form(self) -> bool {
        self == LinkWrite::InlineLink || self == LinkWrite::ReferenceLink || self
            == LinkWrite::LinkWithBadge
    }

    /// Whether this form is a definition.
    pub open spec fn is_definition_form(self) -> bool {
        self == LinkWrite::ReferenceDefinition || self == LinkWrite::BadgeReferenceDefinition
    }
}

/// Two sets of forms have a form in common.
pub open spec fn overlap(a: Set<LinkWrite>, b: Set<LinkWrite>) -> bool {
    exists|f: LinkWrite| a.contains(f) && b.contains(f)
}

/// A set of [`LinkWrite`] forms, held as a bit set.
#[derive(Clone, Copy, Debug)]
pub struct LinkWriteFlags {
    bits: u8,
}

impl View for LinkWriteFlags {
    type V = Set<LinkWrite>;

    closed spec fn view(&self) -> Set<LinkWrite> {
        Set::new(|f: LinkWrite| self.bits & f.spec_bit() != 0)
    }
}

impl Default for LinkWriteFlags {
    /// The reference link and its definition.
    fn default() -> (r: LinkWriteFlags)
        ensures
            r@ == set![LinkWrite::ReferenceLink, LinkWrite::ReferenceDefinition],
    {
        LinkWriteFlags::only(LinkWrite::ReferenceLink).with(LinkWrite::ReferenceDefinition)
    }
}

impl LinkWriteFlags {
    /// No bit is set but those of the five forms.
    #[verifier::type_invariant]
    closed spec fn well_formed(self) -> bool {
        self.bits < 32
    }

    /// The set that holds no form.
    pub fn empty() -> (r: LinkWriteFlags)
        ensures
            r@ == Set::<LinkWrite>::empty(),
    {
        let r = LinkWriteFlags { bits: 0 };
        assert forall|f: LinkWrite| !r@.contains(f) by {
            let b = f.spec_bit();
            assert(0u8 & b == 0) by (bit_vector);
        }
        assert(r@ =~= Set::<LinkWrite>::empty());
        r
    }

    /// The set that holds `flag` alone.
    pub fn only(flag: LinkWrite) -> (r: LinkWriteFlags)
        ensures
            r@ == set![flag],
    {
        LinkWriteFlags::empty().with(flag)
    }

    /// This set and `flag`.
    pub fn with(self, flag: LinkWrite) -> (r: LinkWriteFlags)
        ensures
            r@ == self@.insert(flag),
    {
        self.union(LinkWriteFlags::from_bit(flag))
    }

    fn from_bit(flag: LinkWrite) -> (r: LinkWriteFlags)
        ensures
            r@ == set![flag],
            r.bits == flag.spec_bit(),
    {
        let r = LinkWriteFlags { bits: flag.bit() };
        assert forall|f: LinkWrite| r@.contains(f) == (f == flag) by {
            assert(1u8 & 1u8 != 0 && 1u8 & 2u8 == 0 && 1u8 & 4u8 == 0 && 1u8 & 8u8 == 0 && 1u8
                & 16u8 == 0) by (bit_vector);
            assert(2u8 & 1u8 == 0 && 2u8 & 2u8 != 0 && 2u8 & 4u8 == 0 && 2u8 & 8u8 == 0 && 2u8
                & 16u8 == 0) by (bit_vector);
            assert(4u8 & 1u8 == 0 && 4u8 & 2u8 == 0 && 4u8 & 4u8 != 0 && 4u8 & 8u8 == 0 && 4u8
                & 16u8 == 0) by (bit_vector);
            assert(8u8 & 1u8 == 0 && 8u8 & 2u8 == 0 && 8u8 & 4u8 == 0 && 8u8 & 8u8 != 0 && 8u8
                & 16u8 == 0) by (bit_vector);
            assert(16u8 & 1u8 == 0 && 16u8 & 2u8 == 0 && 16u8 & 4u8 == 0 && 16u8 & 8u8 == 0
                && 16u8 & 16u8 != 0) by (bit_vector);
        }
        assert(r@ =~= set![flag]);
        r
    }

    /// The forms of this set and those of `other`.
    pub fn union(self, other: LinkWriteFlags) -> (r: LinkWriteFlags)
        ensures
            r@ == self@.union(other@),
    {
        proof {
            use_type_invariant(&self);
            use_type_invariant(&other);
        }
        let a = self.bits;
        let b = other.bits;
        assert(a < 32 && b < 32 ==> (a | b) < 32) by (bit_vector);
        let r = LinkWriteFlags { bits: a | b };
        assert forall|f: LinkWrite| r@.contains(f) == (self@.contains(f) || other@.contains(f)) by {
            let m = f.spec_bit();
            assert(((a | b) & m != 0) == ((a & m != 0) || (b & m != 0))) by (bit_vector);
        }
        assert(r@ =~= self@.union(other@));
        r
    }

    /// Whether `flag` is in this set.
    pub fn contains(&self, flag: LinkWrite) -> (r: bool)
        ensures
            r == self@.contains(flag),
    {
        self.bits & flag.bit() != 0
    }

    /// Whether this set and `other` have a form in common.
    pub fn intersects(&self, other: LinkWriteFlags) -> (r: bool)
        ensures
            r == overlap(self@, other@),
    {
        proof {
            use_type_invariant(self);
            use_type_invariant(&other);
        }
        let a = self.bits;
        let b = other.bits;
        let r = a & b != 0;
        proof {
            assert(a < 32 && b < 32 && (a & b != 0) ==> (a & 1u8 != 0 && b & 1u8 != 0) || (a & 2u8
                != 0 && b & 2u8 != 0) || (a & 4u8 != 0 && b & 4u8 != 0) || (a & 8u8 != 0 && b
                & 8u8 != 0) || (a & 16u8 != 0 && b & 16u8 != 0)) by (bit_vector);
            if r {
                let f = if a & 1u8 != 0 && b & 1u8 != 0 {
                    LinkWrite::InlineLink
                } else if a & 2u8 != 0 && b & 2u8 != 0 {
                    LinkWrite::ReferenceLink
                } else if a & 4u8 != 0 && b & 4u8 != 0 {
                    LinkWrite::ReferenceDefinition
                } else if a & 8u8 != 0 && b & 8u8 != 0 {
                    LinkWrite::LinkWithBadge
                } else {
                    LinkWrite::BadgeReferenceDefinition
                };
                assert(self@.contains(f) && other@.contains(f));
            } else {
                assert((a & b == 0) ==> !(a & 1u8 != 0 && b & 1u8 != 0) && !(a & 2u8 != 0 && b
                    & 2u8 != 0) && !(a & 4u8 != 0 && b & 4u8 != 0) && !(a & 8u8 != 0 && b & 8u8
                    != 0) && !(a & 16u8 != 0 && b & 16u8 != 0)) by (bit_vector);
                assert forall|f: LinkWrite| !(self@.contains(f) && other@.contains(f)) by {
                    let m = f.spec_bit();
                    assert(m == 1 || m == 2 || m == 4 || m == 8 || m == 16);
                }
            }
        }
        r
    }
}

} // verus!
