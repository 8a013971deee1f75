//! Content-based semantics: equality, ordering and the read-only view work on
//! the decoded content alone, never on the representation.

use crate::order::cmp_bytes;
use crate::order::lemma_lex_cmp_equal_iff;
use crate::order::lex_cmp;
use crate::storage::Storage;
use core::cmp::Ordering;
use core::ops::Deref;
use vstd::prelude::*;
use vstd::std_specs::cmp::PartialEqSpec;
use vstd::string::StringSliceAdditionalSpecFns;
use vstd::utf8::decode_utf8;

verus! {

impl PartialEq for Storage {
    /// Two values are equal exactly when their decoded content is equal,
    /// whichever representation each side uses.
    fn eq(&self, other: &Self) -> (r: bool) {
        let o = cmp_bytes(self.content_bytes(), other.content_bytes());
        proof {
            lemma_lex_cmp_equal_iff(self@, other@);
        }
        match o {
            Ordering::Equal => true,
            _ => false,
        }
    }
}

impl vstd::std_specs::cmp::PartialEqSpecImpl for Storage {
    open spec fn obeys_eq_spec() -> bool {
        true
    }

    open spec fn eq_spec(&self, other: &Self) -> bool {
        self@ == other@
    }
}

impl Eq for Storage {

}

impl PartialOrd for Storage {
    /// Total order: the lexicographic byte order of the decoded content.
    fn partial_cmp(&self, other: &Self) -> (r: Option<Ordering>) {
        Some(cmp_bytes(self.content_bytes(), other.content_bytes()))
    }
}

impl vstd::std_specs::cmp::PartialOrdSpecImpl for Storage {
    open spec fn obeys_partial_cmp_spec() -> bool {
        true
    }

    open spec fn partial_cmp_spec(&self, other: &Self) -> Option<Ordering> {
        Some(lex_cmp(self@, other@))
    }
}

impl Deref for Storage {
    type Target = str;

    /// The decoded content as the value's natural read-only view: a
    /// pass-through to [`Storage::as_str`], with the same contract.
    fn deref(&self) -> (r: &str)
        ensures
            r.spec_bytes() == self@,
            r@ == decode_utf8(self@),
    {
        self.as_str()
    }
}

/// Law: any two values with empty content are equal; in particular the
/// default value equals one constructed from the empty string.
pub proof fn lemma_empty_values_equal(d: Storage, st: Storage)
    requires
        d@ == Seq::<u8>::empty(),
        st@ == Seq::<u8>::empty(),
    ensures
        d.eq_spec(&st),
{
}

} // verus!
