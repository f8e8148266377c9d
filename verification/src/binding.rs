//! The per-field record a traversal hands to the caller.

use vstd::prelude::*;
use crate::idents::ident_seq;
use crate::tokens::Tokens;

verus! {

/// Information about one destructured field: the generated identifier
/// bound to it, and the zero-based position of the field within its
/// variant's declaration order.
///
/// The position addresses the field slot in the caller-owned descriptor,
/// so downstream logic can read or rewrite that slot (for instance to
/// strike out a consumed attribute) without this record holding a live
/// borrow into the descriptor.
pub struct BindingInfo {
    /// The generated identifier bound to the field.
    pub ident: String,
    /// The position of the field within its variant, in declaration order.
    pub field_index: usize,
}

impl BindingInfo {
    /// Emits the binding as an expression: just its identifier.
    pub fn to_tokens(&self, tokens: &mut Tokens)
        ensures
            final(tokens)@ == old(tokens)@.push(self.ident@),
    {
        tokens.append(self.ident.as_str());
    }
}

/// The bindings of one variant with `n` fields, named from `prefix`: the
/// `i`-th record carries the generated identifier for position `i`, and
/// points back at field slot `i`.
pub open spec fn bindings_match(prefix: Seq<char>, n: nat, bs: Seq<BindingInfo>) -> bool {
    &&& bs.len() == n
    &&& forall|i: int|
        0 <= i < n ==> {
            &&& (#[trigger] bs[i]).ident@ == ident_seq(prefix, i as nat)
            &&& bs[i].field_index == i
        }
}

/// Within one variant the generated binding identifiers are pairwise
/// distinct: naming is strictly positional, so two binding records of one
/// traversal can collide only if the caller reuses the prefix elsewhere
/// in the same lexical scope.
pub proof fn lemma_bindings_distinct(prefix: Seq<char>, n: nat, bs: Seq<BindingInfo>)
    requires
        bindings_match(prefix, n, bs),
    ensures
        forall|i: int, j: int|
            0 <= i < n && 0 <= j < n && i != j ==> (#[trigger] bs[i]).ident@ != (
            #[trigger] bs[j]).ident@,
{
    assert forall|i: int, j: int| 0 <= i < n && 0 <= j < n && i != j implies (
    #[trigger] bs[i]).ident@ != (#[trigger] bs[j]).ident@ by {
        crate::idents::lemma_ident_seq_injective(prefix, i as nat, j as nat);
    }
}

} // verus!
