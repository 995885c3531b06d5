//! Data model of the transfer protocol: transfer identifiers, transfers,
//! signed transfers, replica validations, debit agreement proofs, and the
//! errors the operations report.
//!
//! Key and signature values come from the `safe_nd` and `threshold_crypto`
//! crates and are opaque here; everything the logic reads (counters, amounts,
//! recipients) is held as plain values.

use vstd::prelude::*;

use crate::crypto::{bls_share_eq, key_set_eq, public_key_eq, signature_eq};
use crate::crypto::{clone_bls_share, clone_key_set, clone_signature};
use safe_nd::{PublicKey, Signature};
use threshold_crypto::{
    PublicKeySet, SecretKeyShare as BlsSecretKeyShare, SignatureShare as BlsSignatureShare,
};

verus! {

/// Why an operation was refused.
#[derive(Clone, Copy, Debug, PartialEq, Eq, Structural)]
pub enum Error {
    /// A transfer names its own sender as the recipient.
    SameSenderAndRecipient,
    /// A debit is already in flight and has not been registered yet.
    PendingDebitNotCompleted,
    /// The transfer amount exceeds the account balance.
    InsufficientBalance,
    /// A signature did not verify, whichever of the checks failed.
    InvalidSignature,
    /// A validation carries a transfer initiated by some other actor.
    NotIntendedForThisActor,
    /// A validation is not for the debit the account expects next.
    OutOfOrderValidation,
    /// The exact same validation has been received before.
    AlreadyReceivedValidation,
    /// A registration is not for the debit the account expects next.
    NonSequentialRegistration,
    /// A transfer does not debit the account's owner.
    InvalidOperation,
    /// A batch of replica events held nothing to synchronise.
    NothingToSync,
    /// A value could not be serialised.
    Serialisation,
}

/// The unique identity of a transfer: the debiting actor and a per-actor
/// counter. Counters of applied debits are dense, starting at zero.
#[derive(Clone, Copy)]
pub struct Dot {
    /// The actor whose account the transfer debits.
    pub actor: PublicKey,
    /// Position of the transfer in that actor's debit history.
    pub counter: u64,
}

impl PartialEq for Dot {
    fn eq(&self, other: &Self) -> (r: bool) {
        self.counter == other.counter && public_key_eq(&self.actor, &other.actor)
    }
}

impl vstd::std_specs::cmp::PartialEqSpecImpl for Dot {
    open spec fn obeys_eq_spec() -> bool {
        true
    }

    open spec fn eq_spec(&self, other: &Self) -> bool {
        *self == *other
    }
}

impl Eq for Dot {}

/// A transfer of money from the account identified by `id.actor` to `to`.
/// The amount is in nanos, the smallest denomination.
#[derive(Clone, Copy)]
pub struct Transfer {
    /// Transfer identity, naming the sender.
    pub id: Dot,
    /// The recipient.
    pub to: PublicKey,
    /// The amount, in nanos.
    pub amount: u64,
}

impl PartialEq for Transfer {
    fn eq(&self, other: &Self) -> (r: bool) {
        self.id == other.id && self.amount == other.amount && public_key_eq(&self.to, &other.to)
    }
}

impl vstd::std_specs::cmp::PartialEqSpecImpl for Transfer {
    open spec fn obeys_eq_spec() -> bool {
        true
    }

    open spec fn eq_spec(&self, other: &Self) -> bool {
        *self == *other
    }
}

impl Eq for Transfer {}

/// A transfer together with the debiting actor's signature over its
/// serialisation.
pub struct SignedTransfer {
    /// The transfer.
    pub transfer: Transfer,
    /// The actor's signature over the serialised transfer.
    pub actor_signature: Signature,
}

impl Clone for SignedTransfer {
    fn clone(&self) -> (r: Self)
        ensures
            r == *self,
    {
        SignedTransfer { transfer: self.transfer, actor_signature: clone_signature(&self.actor_signature) }
    }
}

impl PartialEq for SignedTransfer {
    fn eq(&self, other: &Self) -> (r: bool) {
        self.transfer == other.transfer
            && signature_eq(&self.actor_signature, &other.actor_signature)
    }
}

impl vstd::std_specs::cmp::PartialEqSpecImpl for SignedTransfer {
    open spec fn obeys_eq_spec() -> bool {
        true
    }

    open spec fn eq_spec(&self, other: &Self) -> bool {
        *self == *other
    }
}

impl Eq for SignedTransfer {}

/// One replica's threshold-signature share, with its index in the combined
/// collection.
pub struct SignatureShare {
    /// Index in the combined collection.
    pub index: usize,
    /// The replica's signature share over the serialised signed transfer.
    pub share: BlsSignatureShare,
}

impl Clone for SignatureShare {
    fn clone(&self) -> (r: Self)
        ensures
            r == *self,
    {
        SignatureShare { index: self.index, share: clone_bls_share(&self.share) }
    }
}

impl PartialEq for SignatureShare {
    fn eq(&self, other: &Self) -> (r: bool) {
        self.index == other.index && bls_share_eq(&self.share, &other.share)
    }
}

impl vstd::std_specs::cmp::PartialEqSpecImpl for SignatureShare {
    open spec fn obeys_eq_spec() -> bool {
        true
    }

    open spec fn eq_spec(&self, other: &Self) -> bool {
        *self == *other
    }
}

impl Eq for SignatureShare {}

/// A secret key share, with its index in the combined collection.
pub struct SecretKeyShare {
    /// Index in the combined collection.
    pub index: usize,
    /// The secret key share itself.
    pub secret_key: BlsSecretKeyShare,
}

/// A replica's successful validation of a signed transfer: the replica's
/// signature share and the public key set of its group.
pub struct TransferValidated {
    /// The signed transfer that was validated.
    pub signed_transfer: SignedTransfer,
    /// The replica's signature share over the serialised signed transfer.
    pub replica_signature: SignatureShare,
    /// The public key set of the validating replica group.
    pub replicas: PublicKeySet,
}

impl Clone for TransferValidated {
    fn clone(&self) -> (r: Self)
        ensures
            r == *self,
    {
        TransferValidated {
            signed_transfer: self.signed_transfer.clone(),
            replica_signature: self.replica_signature.clone(),
            replicas: clone_key_set(&self.replicas),
        }
    }
}

impl PartialEq for TransferValidated {
    fn eq(&self, other: &Self) -> (r: bool) {
        self.signed_transfer == other.signed_transfer
            && self.replica_signature == other.replica_signature
            && key_set_eq(&self.replicas, &other.replicas)
    }
}

impl vstd::std_specs::cmp::PartialEqSpecImpl for TransferValidated {
    open spec fn obeys_eq_spec() -> bool {
        true
    }

    open spec fn eq_spec(&self, other: &Self) -> bool {
        *self == *other
    }
}

impl Eq for TransferValidated {}

/// The aggregated replica signatures certifying that a quorum of a replica
/// group validated a debit.
pub struct DebitAgreementProof {
    /// The signed transfer the quorum agreed on.
    pub signed_transfer: SignedTransfer,
    /// Quorum of replica signatures, combined into one.
    pub debiting_replicas_sig: Signature,
    /// The public key set of the replica group that validated the transfer.
    pub replica_key: PublicKeySet,
}

impl Clone for DebitAgreementProof {
    fn clone(&self) -> (r: Self)
        ensures
            r == *self,
    {
        DebitAgreementProof {
            signed_transfer: self.signed_transfer.clone(),
            debiting_replicas_sig: clone_signature(&self.debiting_replicas_sig),
            replica_key: clone_key_set(&self.replica_key),
        }
    }
}

impl PartialEq for DebitAgreementProof {
    fn eq(&self, other: &Self) -> (r: bool) {
        self.signed_transfer == other.signed_transfer
            && signature_eq(&self.debiting_replicas_sig, &other.debiting_replicas_sig)
            && key_set_eq(&self.replica_key, &other.replica_key)
    }
}

impl vstd::std_specs::cmp::PartialEqSpecImpl for DebitAgreementProof {
    open spec fn obeys_eq_spec() -> bool {
        true
    }

    open spec fn eq_spec(&self, other: &Self) -> bool {
        *self == *other
    }
}

impl Eq for DebitAgreementProof {}

/// A credit received from a remote replica group: the sender's debit proof
/// and the public key of the group that signed it, so that the key can be
/// held against the membership layer's validity predicate.
pub struct ReceivedCredit {
    /// The sender's aggregated replica signatures of the sender debit.
    pub debit_proof: DebitAgreementProof,
    /// The public key of the signing replicas.
    pub debiting_replicas: PublicKey,
}

impl Clone for ReceivedCredit {
    fn clone(&self) -> (r: Self)
        ensures
            r == *self,
    {
        ReceivedCredit {
            debit_proof: self.debit_proof.clone(),
            debiting_replicas: self.debiting_replicas,
        }
    }
}

/// Events emitted by replicas and consumed during synchronisation. Only the
/// registered and propagated variants are inspected here.
pub enum ReplicaEvent {
    /// A replica validated a transfer.
    TransferValidated(TransferValidated),
    /// A replica registered an agreed transfer.
    TransferRegistered {
        /// The debit proof that was registered.
        debit_proof: DebitAgreementProof,
    },
    /// A replica group propagated an agreed transfer to the recipient's group.
    TransferPropagated {
        /// The debiting group's proof.
        debit_proof: DebitAgreementProof,
        /// The public key of the debiting replica group.
        debiting_replicas: PublicKey,
    },
}

} // verus!
