//! Names of content in the network's address space.

use vstd::prelude::*;

verus! {

/// The name that `xor_name::XorName` gives the content.
pub uninterp spec fn content_name(content: Seq<u8>) -> Seq<u8>;

/// Calls `xor_name::XorName::from_content`. Trusted: the name is 32 bytes long and depends on the
/// content alone.
#[verifier::external_body]
pub(crate) fn name_of_content(content: &[u8]) -> (name: [u8; 32])
    ensures
        name@ == content_name(content@),
{
    xor_name::XorName::from_content(content).0
}

} // verus!
