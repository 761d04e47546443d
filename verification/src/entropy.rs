use vstd::prelude::*;

use crate::wire::Mnemonic;

verus! {

/// Generate a fresh BIP 39 mnemonic to initialize a node's entropy.
///
/// Relies on ldk_node::generate_entropy_mnemonic, which draws 32 random
/// bytes and encodes them as a mnemonic phrase: the phrase is never
/// empty. The result depends on the process's entropy source, so nothing
/// more is promised of it.
#[verifier::external_body]
pub fn generate_entropy_mnemonic() -> (r: Mnemonic)
    ensures
        r.internal@.len() > 0,
{
    Mnemonic { internal: ldk_node::generate_entropy_mnemonic().to_string() }
}

} // verus!
