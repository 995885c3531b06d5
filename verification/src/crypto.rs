//! The boundary to the outside cryptography and serialisation crates.
//!
//! Every item here is trusted: the declarations make the outside key and
//! signature types known, the bodiless spec functions name results that are
//! pure functions of their arguments (a canonical encoding, a deterministic
//! signature), and each wrapper states over those names what the named
//! outside function returns. Nothing else in the crate is taken on trust.

use vstd::prelude::*;

use crate::types::{Error, SignedTransfer, Transfer};
use safe_nd::{ClientFullId, PublicKey, Signature};
use threshold_crypto::{
    PublicKeySet, SecretKeyShare as BlsSecretKeyShare, SignatureShare as BlsSignatureShare,
};

verus! {

#[verifier::external_type_specification]
#[verifier::external_body]
pub struct ExPublicKey(PublicKey);

#[verifier::external_type_specification]
#[verifier::external_body]
pub struct ExSignature(Signature);

#[verifier::external_type_specification]
#[verifier::external_body]
pub struct ExClientFullId(ClientFullId);

#[verifier::external_type_specification]
#[verifier::external_body]
pub struct ExPublicKeySet(PublicKeySet);

#[verifier::external_type_specification]
#[verifier::external_body]
pub struct ExBlsSignatureShare(BlsSignatureShare);

#[verifier::external_type_specification]
#[verifier::external_body]
pub struct ExBlsSecretKeyShare(BlsSecretKeyShare);

/// The canonical serialisation of a transfer, if it has one.
pub uninterp spec fn transfer_ser(t: Transfer) -> Option<Seq<u8>>;

/// The canonical serialisation of a signed transfer, if it has one.
pub uninterp spec fn signed_transfer_ser(st: SignedTransfer) -> Option<Seq<u8>>;

/// The signature the given key holder produces over the given bytes.
pub uninterp spec fn signed_by(key: ClientFullId, data: Seq<u8>) -> Signature;

/// The public key of the given key holder.
pub uninterp spec fn client_public_key(key: ClientFullId) -> PublicKey;

/// Whether the given signature verifies under the given key over the bytes.
pub uninterp spec fn sig_verifies(key: PublicKey, sig: Signature, data: Seq<u8>) -> bool;

/// Whether a signature share verifies under the share key at `index` of the
/// given replica group over the bytes.
pub uninterp spec fn share_verifies(
    group: PublicKeySet,
    index: usize,
    share: BlsSignatureShare,
    data: Seq<u8>,
) -> bool;

/// The threshold of a replica group: any `threshold + 1` shares combine into
/// a full signature.
pub uninterp spec fn group_threshold(group: PublicKeySet) -> usize;

/// The master public key of a replica group.
pub uninterp spec fn group_key(group: PublicKeySet) -> PublicKey;

/// What combining the given signature shares under the given group yields:
/// a full signature, or nothing when the shares cannot be combined.
pub uninterp spec fn combined_signature(
    group: PublicKeySet,
    shares: Seq<(usize, BlsSignatureShare)>,
) -> Option<Signature>;

/// Relies on `bincode::serialize` (fixed-width little-endian fields in
/// declaration order) over the `safe_nd::Transfer` built from the same
/// values: a pure function of the transfer's fields.
#[verifier::external_body]
pub(crate) fn serialize_transfer(t: &Transfer) -> (r: Result<Vec<u8>, Error>)
    ensures
        match r {
            Ok(b) => transfer_ser(*t) == Some(b@),
            Err(e) => transfer_ser(*t) is None && e == Error::Serialisation,
        },
{
    let nd = safe_nd::Transfer {
        id: crdts::Dot::new(t.id.actor, t.id.counter),
        to: t.to,
        amount: safe_nd::Money::from_nano(t.amount),
    };
    match bincode::serialize(&nd) {
        Ok(b) => Ok(b),
        Err(_) => Err(Error::Serialisation),
    }
}

/// Relies on `bincode::serialize` over the `safe_nd::SignedTransfer` built
/// from the same values: a pure function of the signed transfer's fields.
#[verifier::external_body]
pub(crate) fn serialize_signed_transfer(st: &SignedTransfer) -> (r: Result<Vec<u8>, Error>)
    ensures
        match r {
            Ok(b) => signed_transfer_ser(*st) == Some(b@),
            Err(e) => signed_transfer_ser(*st) is None && e == Error::Serialisation,
        },
{
    let nd = safe_nd::SignedTransfer {
        transfer: safe_nd::Transfer {
            id: crdts::Dot::new(st.transfer.id.actor, st.transfer.id.counter),
            to: st.transfer.to,
            amount: safe_nd::Money::from_nano(st.transfer.amount),
        },
        actor_signature: st.actor_signature.clone(),
    };
    match bincode::serialize(&nd) {
        Ok(b) => Ok(b),
        Err(_) => Err(Error::Serialisation),
    }
}

/// Relies on `safe_nd::ClientFullId::sign` (ed25519 or BLS): deterministic in
/// key and message, and the signature it produces verifies under the key
/// holder's public key.
#[verifier::external_body]
pub(crate) fn sign_bytes(key: &ClientFullId, data: &Vec<u8>) -> (r: Signature)
    ensures
        r == signed_by(*key, data@),
        sig_verifies(client_public_key(*key), r, data@),
{
    key.sign(data.as_slice())
}

/// Relies on `safe_nd::ClientFullId::public_key`.
#[verifier::external_body]
pub(crate) fn client_key_of(key: &ClientFullId) -> (r: PublicKey)
    ensures
        r == client_public_key(*key),
{
    *key.public_key()
}

/// Relies on `safe_nd::PublicKey::verify`: a pure function of key, signature
/// and message.
#[verifier::external_body]
pub(crate) fn verify_signature(key: &PublicKey, sig: &Signature, data: &Vec<u8>) -> (r: bool)
    ensures
        r == sig_verifies(*key, *sig, data@),
{
    match key.verify(sig, data.as_slice()) {
        Ok(()) => true,
        Err(_) => false,
    }
}

/// Relies on `threshold_crypto::PublicKeySet::public_key_share` and
/// `PublicKeyShare::verify`: both pure functions of their arguments.
#[verifier::external_body]
pub(crate) fn verify_share_signature(
    group: &PublicKeySet,
    index: usize,
    share: &BlsSignatureShare,
    data: &Vec<u8>,
) -> (r: bool)
    ensures
        r == share_verifies(*group, index, *share, data@),
{
    group.public_key_share(index).verify(share, data.as_slice())
}

/// Relies on `threshold_crypto::PublicKeySet::threshold`.
#[verifier::external_body]
pub(crate) fn threshold_of(group: &PublicKeySet) -> (r: usize)
    ensures
        r == group_threshold(*group),
{
    group.threshold()
}

/// Relies on `threshold_crypto::PublicKeySet::public_key`; the key is wrapped
/// as the BLS variant of `safe_nd::PublicKey`.
#[verifier::external_body]
pub(crate) fn public_key_of_set(group: &PublicKeySet) -> (r: PublicKey)
    ensures
        r == group_key(*group),
{
    PublicKey::Bls(group.public_key())
}

/// Relies on `threshold_crypto::PublicKeySet::combine_signatures`:
/// deterministic in the group and the share list; by its documentation it
/// fails only on a duplicate index or too few shares, and combining more
/// than `threshold` shares that each verify over a message yields a full
/// signature that verifies under the group's public key over that message.
#[verifier::external_body]
pub(crate) fn combine_shares(
    group: &PublicKeySet,
    shares: &Vec<(usize, BlsSignatureShare)>,
) -> (r: Option<Signature>)
    ensures
        r == combined_signature(*group, shares@),
        (shares@.len() > group_threshold(*group) && (forall|i: int, j: int|
            0 <= i < j < shares@.len() ==> shares@[i].0 != shares@[j].0)) ==> r is Some,
        match r {
            Some(s) => forall|data: Seq<u8>|
                (shares@.len() > group_threshold(*group) && (forall|i: int|
                    0 <= i < shares@.len() ==> #[trigger] share_verifies(
                        *group,
                        shares@[i].0,
                        shares@[i].1,
                        data,
                    ))) ==> #[trigger] sig_verifies(group_key(*group), s, data),
            None => true,
        },
{
    match group.combine_signatures(shares.iter().map(|p| (p.0, &p.1))) {
        Ok(sig) => Some(Signature::Bls(sig)),
        Err(_) => None,
    }
}

/// Relies on the derived `PartialEq` of `safe_nd::PublicKey`: equality of the
/// underlying raw key.
#[verifier::external_body]
pub(crate) fn public_key_eq(a: &PublicKey, b: &PublicKey) -> (r: bool)
    ensures
        r == (*a == *b),
{
    a == b
}

/// Relies on the derived `PartialEq` of `safe_nd::Signature`: equality of the
/// underlying signature bytes.
#[verifier::external_body]
pub(crate) fn signature_eq(a: &Signature, b: &Signature) -> (r: bool)
    ensures
        r == (*a == *b),
{
    a == b
}

/// Relies on the derived `PartialEq` of `threshold_crypto::SignatureShare`.
#[verifier::external_body]
pub(crate) fn bls_share_eq(a: &BlsSignatureShare, b: &BlsSignatureShare) -> (r: bool)
    ensures
        r == (*a == *b),
{
    a == b
}

/// Relies on the derived `PartialEq` of `threshold_crypto::PublicKeySet`:
/// equality of the group's key polynomial commitment.
#[verifier::external_body]
pub(crate) fn key_set_eq(a: &PublicKeySet, b: &PublicKeySet) -> (r: bool)
    ensures
        r == (*a == *b),
{
    a == b
}

/// Relies on the derived `Clone` of `safe_nd::Signature`: the clone equals
/// the original.
#[verifier::external_body]
pub(crate) fn clone_signature(a: &Signature) -> (r: Signature)
    ensures
        r == *a,
{
    a.clone()
}

/// Relies on the derived `Clone` of `threshold_crypto::SignatureShare`: the
/// clone equals the original.
#[verifier::external_body]
pub(crate) fn clone_bls_share(a: &BlsSignatureShare) -> (r: BlsSignatureShare)
    ensures
        r == *a,
{
    a.clone()
}

/// Relies on the derived `Clone` of `threshold_crypto::PublicKeySet`: the
/// clone equals the original.
#[verifier::external_body]
pub(crate) fn clone_key_set(a: &PublicKeySet) -> (r: PublicKeySet)
    ensures
        r == *a,
{
    a.clone()
}

} // verus!
