//! The proof that a relay chain account wants a native account: a signature
//! of the relay chain account over the native account's encoding.

use crate::types::{AccountId, RelayChainAccountId};
use vstd::prelude::*;

verus! {

/// `sp_runtime::MultiSignature`: a signature of one of the schemes that the
/// relay chain knows. The ledger hands it on and never looks inside.
#[verifier::external_type_specification]
#[verifier::external_body]
pub struct ExMultiSignature(sp_runtime::MultiSignature);

/// The bytes that a relay chain account signs to ask for the native account:
/// the eight bytes of the number, the lowest first.
pub open spec fn account_payload(account: AccountId) -> Seq<u8> {
    seq![
        (account % 0x100) as u8,
        (account / 0x100 % 0x100) as u8,
        (account / 0x1_0000 % 0x100) as u8,
        (account / 0x100_0000 % 0x100) as u8,
        (account / 0x1_0000_0000 % 0x100) as u8,
        (account / 0x100_0000_0000 % 0x100) as u8,
        (account / 0x1_0000_0000_0000 % 0x100) as u8,
        (account / 0x100_0000_0000_0000 % 0x100) as u8,
    ]
}

/// `parity_scale_codec::Encode::encode` of a `u64`: the number's eight bytes in
/// little-endian order.
#[verifier::external_body]
pub(crate) fn encode_account(account: AccountId) -> (payload: Vec<u8>)
    ensures
        payload@ == account_payload(account),
{
    parity_scale_codec::Encode::encode(&account)
}

/// `sp_runtime::traits::Verify::verify` of `sp_runtime::MultiSignature`, with the
/// relay chain account as the signer's `AccountId32`. Whether the signature is
/// accepted is for the signature scheme to say, and for one scheme also for the
/// host that the call runs in: nothing is claimed of the answer.
#[verifier::external_body]
pub(crate) fn verify_proof(
    proof: &sp_runtime::MultiSignature,
    payload: &Vec<u8>,
    relay_account: &RelayChainAccountId,
) -> (valid: bool) {
    sp_runtime::traits::Verify::verify(
        proof,
        payload.as_slice(),
        &sp_runtime::AccountId32::new(*relay_account),
    )
}

} // verus!
