//! Client-side actor of an AT2 (Asynchronous Trustworthy Transfers) value
//! transfer protocol.
//!
//! The actor owns one account, initiates debits by collecting a threshold
//! quorum of replica signature shares, assembles the shares into a debit
//! agreement proof, registers the certified debit, and synchronises credits
//! and debits propagated from other replica groups. Commands are pure: they
//! return events without touching state, and only [`TransferActor::apply`]
//! mutates.

use vstd::prelude::*;

pub mod account;
pub mod actor;
pub mod crypto;
pub mod types;

pub use account::{account_balance, account_model_inv, sum_amounts, Account, AccountModel};
pub use actor::{
    acc_contains_validation, acc_group_validations, acc_insert, accumulator_in_flight,
    actor_model_inv, quorum_reached, replay, spec_apply, spec_proof_outcome, valid_event, Actor,
    ActorModel, GroupModel, GroupValidations,
};
pub use actor::Actor as TransferActor;
pub use crypto::{
    client_public_key, combined_signature, group_key, group_threshold, share_verifies,
    sig_verifies, signed_by, signed_transfer_ser, transfer_ser,
};
pub use types::{
    DebitAgreementProof, Dot, Error, ReceivedCredit, ReplicaEvent, SecretKeyShare, SignatureShare,
    SignedTransfer, Transfer, TransferValidated,
};

use safe_nd::PublicKey;

verus! {

/// Decides whether a remote replica group, represented by its public key, is
/// a valid group of the system. The logic lives in the membership layer
/// above; it is injected into the actor and consulted only when credits are
/// ingested.
pub trait ReplicaValidator: Sized {
    /// What the predicate holds of a replica group's key.
    spec fn valid_spec(&self, replica_group: PublicKey) -> bool;

    /// Determines if a remote group of replicas, represented by a public
    /// key, is indeed valid.
    fn is_valid(&self, replica_group: PublicKey) -> (r: bool)
        ensures
            r == self.valid_spec(replica_group),
    ;
}

/// A replica validator that accepts every group: the choice of an upper
/// layer that trusts membership wholesale.
pub struct Validator;

impl ReplicaValidator for Validator {
    open spec fn valid_spec(&self, replica_group: PublicKey) -> bool {
        true
    }

    fn is_valid(&self, replica_group: PublicKey) -> (r: bool) {
        true
    }
}

/// Raised when a transfer command was valid on local state: the signed
/// transfer to send to the replicas for validation.
pub struct TransferInitiated {
    /// The signed transfer.
    pub signed_transfer: SignedTransfer,
}

impl Clone for TransferInitiated {
    fn clone(&self) -> (r: Self)
        ensures
            r == *self,
    {
        TransferInitiated { signed_transfer: self.signed_transfer.clone() }
    }
}

impl TransferInitiated {
    /// The identity of the initiated transfer.
    pub fn id(&self) -> (r: Dot)
        ensures
            r == self.signed_transfer.transfer.id,
    {
        self.signed_transfer.transfer.id
    }
}

/// Raised when a replica's validation of the in-flight transfer was
/// accepted; carries the proof once a quorum of validations has been
/// accumulated.
pub struct TransferValidationReceived {
    /// The validation a replica raised.
    pub validation: TransferValidated,
    /// The debit agreement proof, added when a quorum of validations has
    /// been received.
    pub proof: Option<DebitAgreementProof>,
}

impl Clone for TransferValidationReceived {
    fn clone(&self) -> (r: Self)
        ensures
            r == *self,
    {
        let proof = match &self.proof {
            Some(p) => Some(p.clone()),
            None => None,
        };
        TransferValidationReceived { validation: self.validation.clone(), proof }
    }
}

/// Raised when a quorum of validations was accumulated and the certified
/// debit is ready to be sent to the replicas for registration.
pub struct TransferRegistrationSent {
    /// The proof the quorum produced.
    pub debit_proof: DebitAgreementProof,
}

impl Clone for TransferRegistrationSent {
    fn clone(&self) -> (r: Self)
        ensures
            r == *self,
    {
        TransferRegistrationSent { debit_proof: self.debit_proof.clone() }
    }
}

/// Raised when credits or debits unknown to the local account were found
/// among replica events.
pub struct TransfersSynched {
    /// Credits the account does not have yet.
    pub credits: Vec<ReceivedCredit>,
    /// Debits the account does not have yet, dense from the next expected
    /// counter.
    pub debits: Vec<DebitAgreementProof>,
}

/// Events raised by the actor. State changes happen only by applying these.
pub enum ActorEvent {
    /// A transfer command was valid on local state.
    TransferInitiated(TransferInitiated),
    /// A replica validation was accepted.
    TransferValidationReceived(TransferValidationReceived),
    /// A quorum was accumulated and a registration is on its way.
    TransferRegistrationSent(TransferRegistrationSent),
    /// Unknown credits or debits were synchronised from replica events.
    TransfersSynched(TransfersSynched),
}

} // verus!
