//! The actor: the client-side state machine of the transfer protocol.
//!
//! Commands (`transfer`, `receive`, `register`, `synch`) are pure: they take
//! the state by reference and return an event or an error. Only `apply`
//! mutates, by folding an event into the state, so the state is always the
//! deterministic fold of the applied event history.

use vstd::prelude::*;

use crate::account::{
    account_model_inv, is_credit_for, is_debit_for, sum_amounts, Account, AccountModel,
};
use crate::crypto::{
    clone_bls_share, combine_shares, combined_signature, client_key_of, client_public_key,
    group_key, group_threshold, public_key_eq, public_key_of_set, serialize_signed_transfer,
    serialize_transfer, share_verifies, sig_verifies, sign_bytes, signed_by, signed_transfer_ser,
    threshold_of, transfer_ser, verify_share_signature, verify_signature,
};
use crate::types::{
    DebitAgreementProof, Dot, Error, ReceivedCredit, SignedTransfer, Transfer, TransferValidated,
};
use crate::{ReplicaValidator, TransferInitiated, TransferRegistrationSent};
use safe_nd::{ClientFullId, PublicKey};
use threshold_crypto::PublicKeySet;

verus! {

/// The validations accumulated from one replica group for the in-flight
/// debit.
pub struct GroupValidations {
    /// The public key set identifying the group.
    pub replicas: PublicKeySet,
    /// The validations received from members of that group.
    pub validations: Vec<TransferValidated>,
}

/// The mathematical content of one accumulator entry.
#[verifier::ext_equal]
pub struct GroupModel {
    /// The public key set identifying the group.
    pub replicas: PublicKeySet,
    /// The validations received from members of that group.
    pub validations: Seq<TransferValidated>,
}

/// The mathematical content of an actor: everything `apply` folds events
/// into. The injected replica validator is configuration, not state, and is
/// not part of the model.
#[verifier::ext_equal]
pub struct ActorModel {
    /// The account owner's public key.
    pub id: PublicKey,
    /// The owner's signing key holder.
    pub client_id: ClientFullId,
    /// The account ledger.
    pub account: AccountModel,
    /// The counter of the next debit to initiate; one more than the account's
    /// next expected debit exactly while a debit is in flight.
    pub next_debit_version: u64,
    /// The accumulated validations, one entry per replica group.
    pub accumulator: Seq<GroupModel>,
    /// The public key set of the actor's own replicas.
    pub replicas: PublicKeySet,
}

/// Whether the accumulator holds this exact validation in some group.
pub open spec fn acc_contains_validation(acc: Seq<GroupModel>, v: TransferValidated) -> bool {
    exists|i: int, j: int|
        0 <= i < acc.len() && 0 <= j < acc[i].validations.len() && acc[i].validations[j] == v
}

/// The validations accumulated for the given replica group: those of the
/// first entry carrying that key set, empty when there is none.
pub open spec fn acc_group_validations(acc: Seq<GroupModel>, replicas: PublicKeySet) -> Seq<
    TransferValidated,
>
    decreases acc.len(),
{
    if acc.len() == 0 {
        Seq::empty()
    } else if acc[0].replicas == replicas {
        acc[0].validations
    } else {
        acc_group_validations(acc.skip(1), replicas)
    }
}

/// The accumulator after inserting a validation: appended to the first entry
/// of its replica group, or opening a new entry at the end.
pub open spec fn acc_insert(acc: Seq<GroupModel>, v: TransferValidated) -> Seq<GroupModel>
    decreases acc.len(),
{
    if acc.len() == 0 {
        seq![GroupModel { replicas: v.replicas, validations: seq![v] }]
    } else if acc[0].replicas == v.replicas {
        seq![
            GroupModel { replicas: acc[0].replicas, validations: acc[0].validations.push(v) },
        ] + acc.skip(1)
    } else {
        seq![acc[0]] + acc_insert(acc.skip(1), v)
    }
}

/// Whether the actor's signature on a signed transfer verifies under the
/// given key.
pub open spec fn actor_sig_ok(id: PublicKey, st: SignedTransfer) -> bool {
    match transfer_ser(st.transfer) {
        Some(d) => sig_verifies(id, st.actor_signature, d),
        None => false,
    }
}

/// Whether a validation's replica signature share verifies under the share
/// key, at the share's index, of the validation's own replica group.
pub open spec fn share_sig_ok(v: TransferValidated) -> bool {
    match signed_transfer_ser(v.signed_transfer) {
        Some(d) => share_verifies(
            v.replicas,
            v.replica_signature.index,
            v.replica_signature.share,
            d,
        ),
        None => false,
    }
}

/// Whether a proof's aggregated replica signature verifies under the master
/// key of the given replica group.
pub open spec fn registered_sig_ok(group: PublicKeySet, p: DebitAgreementProof) -> bool {
    match signed_transfer_ser(p.signed_transfer) {
        Some(d) => sig_verifies(group_key(group), p.debiting_replicas_sig, d),
        None => false,
    }
}

/// Whether a debit agreement proof passes both checks: the actor's own
/// signature under `id`, and the aggregated replica signature under `group`.
pub open spec fn debit_proof_ok(id: PublicKey, group: PublicKeySet, p: DebitAgreementProof) -> bool {
    actor_sig_ok(id, p.signed_transfer) && registered_sig_ok(group, p)
}

/// Whether a received credit's proof verifies under the remote group key it
/// names.
pub open spec fn credit_proof_sig_ok(c: ReceivedCredit) -> bool {
    match signed_transfer_ser(c.debit_proof.signed_transfer) {
        Some(d) => sig_verifies(c.debiting_replicas, c.debit_proof.debiting_replicas_sig, d),
        None => false,
    }
}

/// Well-formedness of an actor model.
pub open spec fn actor_model_inv(m: ActorModel) -> bool {
    &&& account_model_inv(m.account)
    &&& m.account.owner == m.id
    &&& m.id == client_public_key(m.client_id)
    &&& m.next_debit_version == m.account.debits.len() || m.next_debit_version == m.account.debits.len() + 1
    &&& forall|i: int, j: int|
        0 <= i < j < m.accumulator.len() ==> (#[trigger] m.accumulator[i]).replicas != (
        #[trigger] m.accumulator[j]).replicas
    &&& forall|i: int|
        0 <= i < m.accumulator.len() ==> (#[trigger] m.accumulator[i]).validations.len() >= 1
    &&& forall|i: int, j: int|
        0 <= i < m.accumulator.len() && 0 <= j < m.accumulator[i].validations.len() ==> (
        #[trigger] m.accumulator[i].validations[j]).replicas == m.accumulator[i].replicas
    &&& forall|i: int, j: int, k: int|
        0 <= i < m.accumulator.len() && 0 <= j < k < m.accumulator[i].validations.len() ==> (
        #[trigger] m.accumulator[i].validations[j]) != (#[trigger] m.accumulator[i].validations[k])
}

/// The transfers a synchronisation event credits to the account.
pub open spec fn synched_credits(e: crate::TransfersSynched) -> Seq<Transfer> {
    e.credits@.map_values(|c: ReceivedCredit| c.debit_proof.signed_transfer.transfer)
}

/// The transfers a synchronisation event debits from the account.
pub open spec fn synched_debits(e: crate::TransfersSynched) -> Seq<Transfer> {
    e.debits@.map_values(|p: DebitAgreementProof| p.signed_transfer.transfer)
}

/// What must hold of an event before it is applied. Events produced by this
/// actor's own commands satisfy the structural parts; the bounds on the
/// totals are machine limits that the surrounding layer answers for, as
/// `apply` trusts its events.
pub open spec fn valid_event(m: ActorModel, event: crate::ActorEvent) -> bool {
    match event {
        crate::ActorEvent::TransferInitiated(e) => {
            &&& e.signed_transfer.transfer.id.counter == m.account.debits.len()
            &&& e.signed_transfer.transfer.id.counter < u64::MAX
        },
        crate::ActorEvent::TransferValidationReceived(e) => {
            &&& e.validation.signed_transfer.transfer.id.actor == m.id
            &&& e.validation.signed_transfer.transfer.id.counter == m.account.debits.len()
            &&& !acc_contains_validation(m.accumulator, e.validation)
        },
        crate::ActorEvent::TransferRegistrationSent(e) => {
            let t = e.debit_proof.signed_transfer.transfer;
            &&& is_debit_for(t, m.id)
            &&& t.id.counter == m.account.debits.len()
            &&& m.next_debit_version == m.account.debits.len() + 1
            &&& sum_amounts(m.account.debits) + t.amount <= sum_amounts(m.account.credits)
        },
        crate::ActorEvent::TransfersSynched(e) => {
            let cs = synched_credits(e);
            let ds = synched_debits(e);
            &&& forall|k: int| 0 <= k < cs.len() ==> is_credit_for(#[trigger] cs[k], m.id)
            &&& forall|k: int|
                0 <= k < ds.len() ==> is_debit_for(#[trigger] ds[k], m.id) && ds[k].id.counter
                    == m.account.debits.len() + k
            &&& sum_amounts(m.account.credits) + sum_amounts(cs) <= u64::MAX
            &&& sum_amounts(m.account.debits) + sum_amounts(ds) <= sum_amounts(m.account.credits)
                + sum_amounts(cs)
            &&& m.account.debits.len() + ds.len() <= u64::MAX
        },
    }
}

/// The state transition `apply` performs, as a function of model and event.
pub open spec fn spec_apply(m: ActorModel, event: crate::ActorEvent) -> ActorModel {
    match event {
        crate::ActorEvent::TransferInitiated(e) => ActorModel {
            next_debit_version: (e.signed_transfer.transfer.id.counter + 1) as u64,
            ..m
        },
        crate::ActorEvent::TransferValidationReceived(e) => ActorModel {
            replicas: if e.proof is Some {
                e.validation.replicas
            } else {
                m.replicas
            },
            accumulator: acc_insert(m.accumulator, e.validation),
            ..m
        },
        crate::ActorEvent::TransferRegistrationSent(e) => ActorModel {
            account: AccountModel {
                debits: m.account.debits.push(e.debit_proof.signed_transfer.transfer),
                ..m.account
            },
            accumulator: Seq::empty(),
            ..m
        },
        crate::ActorEvent::TransfersSynched(e) => ActorModel {
            account: AccountModel {
                credits: m.account.credits + synched_credits(e),
                debits: m.account.debits + synched_debits(e),
                ..m.account
            },
            next_debit_version: if e.debits@.len() > 0 {
                (m.account.debits.len() + e.debits@.len()) as u64
            } else {
                m.next_debit_version
            },
            ..m
        },
    }
}

/// The state reached by replaying a log of events from a starting state:
/// the fold of [`spec_apply`] over the log. Since `apply` makes the state
/// exactly this fold of the applied history, replaying an actor's complete
/// history against a fresh instance rebuilds an equal state.
pub open spec fn replay(m: ActorModel, log: Seq<crate::ActorEvent>) -> ActorModel
    decreases log.len(),
{
    if log.len() == 0 {
        m
    } else {
        spec_apply(replay(m, log.drop_last()), log.last())
    }
}

/// Replaying one more event is one more transition.
pub proof fn lemma_replay_push(m: ActorModel, log: Seq<crate::ActorEvent>, e: crate::ActorEvent)
    ensures
        replay(m, log.push(e)) == spec_apply(replay(m, log), e),
{
    assert(log.push(e).drop_last() =~= log);
    assert(log.push(e).last() == e);
}

/// Replay composes: rehydrating from a snapshot and then applying the rest
/// of the history equals replaying the whole history.
pub proof fn lemma_replay_concat(
    m: ActorModel,
    first: Seq<crate::ActorEvent>,
    rest: Seq<crate::ActorEvent>,
)
    ensures
        replay(m, first + rest) == replay(replay(m, first), rest),
    decreases rest.len(),
{
    if rest.len() == 0 {
        assert(first + rest =~= first);
    } else {
        assert((first + rest).drop_last() =~= first + rest.drop_last());
        assert((first + rest).last() == rest.last());
        lemma_replay_concat(m, first, rest.drop_last());
    }
}

/// The `(index, share)` pairs of a list of validations.
pub open spec fn share_pairs(vals: Seq<TransferValidated>) -> Seq<
    (usize, threshold_crypto::SignatureShare),
> {
    vals.map_values(|w: TransferValidated| (w.replica_signature.index, w.replica_signature.share))
}

/// The share pairs handed to the combiner when `v` arrives: those
/// accumulated for `v`'s group, then `v`'s own.
pub open spec fn receive_pairs(acc: Seq<GroupModel>, v: TransferValidated) -> Seq<
    (usize, threshold_crypto::SignatureShare),
> {
    share_pairs(acc_group_validations(acc, v.replicas)).push(
        (v.replica_signature.index, v.replica_signature.share),
    )
}

/// The quorum rule: the arriving validation's group must already hold at
/// least `threshold` validations, and no other group may hold more, so that
/// it is the largest group that reaches the quorum.
pub open spec fn quorum_reached(acc: Seq<GroupModel>, v: TransferValidated) -> bool {
    &&& acc.len() > 0
    &&& acc_group_validations(acc, v.replicas).len() >= group_threshold(v.replicas)
    &&& forall|i: int|
        0 <= i < acc.len() ==> (#[trigger] acc[i]).validations.len() <= acc_group_validations(
            acc,
            v.replicas,
        ).len()
}

/// Whether the share indices of the pairs are pairwise distinct.
pub open spec fn pairs_distinct(pairs: Seq<(usize, threshold_crypto::SignatureShare)>) -> bool {
    forall|i: int, j: int|
        0 <= i < j < pairs.len() ==> (#[trigger] pairs[i]).0 != (#[trigger] pairs[j]).0
}

/// Whether every pair's share verifies under the group's share key at the
/// pair's index, over the given bytes.
pub open spec fn pairs_valid(
    group: PublicKeySet,
    pairs: Seq<(usize, threshold_crypto::SignatureShare)>,
    data: Seq<u8>,
) -> bool {
    forall|i: int|
        0 <= i < pairs.len() ==> #[trigger] share_verifies(group, pairs[i].0, pairs[i].1, data)
}

/// Whether every share handed to the combiner when `v` arrives verifies over
/// the serialised signed transfer.
pub open spec fn accumulated_valid(acc: Seq<GroupModel>, v: TransferValidated) -> bool {
    match signed_transfer_ser(v.signed_transfer) {
        Some(d) => pairs_valid(v.replicas, receive_pairs(acc, v), d),
        None => false,
    }
}

/// The proof `receive` attaches to its event: present exactly when the
/// quorum is reached, the shares combine, and the combined signature
/// verifies under the group's master key over the serialised signed
/// transfer.
pub open spec fn spec_proof_outcome(acc: Seq<GroupModel>, v: TransferValidated) -> Option<
    DebitAgreementProof,
> {
    if quorum_reached(acc, v) {
        match signed_transfer_ser(v.signed_transfer) {
            Some(d) => match combined_signature(v.replicas, receive_pairs(acc, v)) {
                Some(s) => if sig_verifies(group_key(v.replicas), s, d) {
                    Some(
                        DebitAgreementProof {
                            signed_transfer: v.signed_transfer,
                            debiting_replicas_sig: s,
                            replica_key: v.replicas,
                        },
                    )
                } else {
                    None
                },
                None => None,
            },
            None => None,
        }
    } else {
        None
    }
}

/// Whether some credit in the list carries the given transfer identity.
pub open spec fn credits_contain_dot(s: Seq<ReceivedCredit>, id: Dot) -> bool {
    exists|i: int|
        0 <= i < s.len() && (#[trigger] s[i]).debit_proof.signed_transfer.transfer.id == id
}

/// Whether some proof in the list carries the given transfer identity.
pub open spec fn proofs_contain_dot(s: Seq<DebitAgreementProof>, id: Dot) -> bool {
    exists|i: int| 0 <= i < s.len() && (#[trigger] s[i]).signed_transfer.transfer.id == id
}

/// The propagated credits among the events, in order of first appearance,
/// deduplicated by transfer identity.
pub open spec fn propagated_fold(events: Seq<crate::ReplicaEvent>) -> Seq<ReceivedCredit>
    decreases events.len(),
{
    if events.len() == 0 {
        Seq::empty()
    } else {
        let prev = propagated_fold(events.drop_last());
        match events.last() {
            crate::ReplicaEvent::TransferPropagated { debit_proof, debiting_replicas } => {
                if credits_contain_dot(prev, debit_proof.signed_transfer.transfer.id) {
                    prev
                } else {
                    prev.push(ReceivedCredit { debit_proof, debiting_replicas })
                }
            },
            _ => prev,
        }
    }
}

/// The registered debit proofs among the events, in order of first
/// appearance, deduplicated by transfer identity.
pub open spec fn registered_fold(events: Seq<crate::ReplicaEvent>) -> Seq<DebitAgreementProof>
    decreases events.len(),
{
    if events.len() == 0 {
        Seq::empty()
    } else {
        let prev = registered_fold(events.drop_last());
        match events.last() {
            crate::ReplicaEvent::TransferRegistered { debit_proof } => {
                if proofs_contain_dot(prev, debit_proof.signed_transfer.transfer.id) {
                    prev
                } else {
                    prev.push(debit_proof)
                }
            },
            _ => prev,
        }
    }
}

/// Whether some proof in the list debits the given counter.
pub open spec fn has_counter(s: Seq<DebitAgreementProof>, c: int) -> bool {
    exists|i: int|
        0 <= i < s.len() && (#[trigger] s[i]).signed_transfer.transfer.id.counter == c
}

/// The first proof in the list that debits the given counter.
pub open spec fn first_with_counter(s: Seq<DebitAgreementProof>, c: int) -> DebitAgreementProof
    decreases s.len(),
{
    if s.len() == 0 {
        arbitrary()
    } else if s[0].signed_transfer.transfer.id.counter == c {
        s[0]
    } else {
        first_with_counter(s.skip(1), c)
    }
}

/// The longest run of proofs with counters dense from `from`, each the first
/// in the list with its counter; `fuel` bounds the run.
pub open spec fn dense_from(s: Seq<DebitAgreementProof>, from: int, fuel: nat) -> Seq<
    DebitAgreementProof,
>
    decreases fuel,
{
    if fuel == 0 {
        Seq::empty()
    } else if has_counter(s, from) {
        seq![first_with_counter(s, from)] + dense_from(s, from + 1, (fuel - 1) as nat)
    } else {
        Seq::empty()
    }
}

/// The first match of a counter is `first_with_counter`.
pub proof fn lemma_first_with_counter(s: Seq<DebitAgreementProof>, c: int, j: int)
    requires
        0 <= j < s.len(),
        s[j].signed_transfer.transfer.id.counter == c,
        forall|k: int|
            0 <= k < j ==> (#[trigger] s[k]).signed_transfer.transfer.id.counter != c,
    ensures
        first_with_counter(s, c) == s[j],
    decreases j,
{
    if j > 0 {
        lemma_first_with_counter(s.skip(1), c, j - 1);
    }
}

/// Taking one more step of a dense run appends the first proof with the next
/// counter.
pub proof fn lemma_dense_step(s: Seq<DebitAgreementProof>, from: int, k: nat)
    requires
        dense_from(s, from, k).len() == k,
        has_counter(s, from + k),
    ensures
        dense_from(s, from, (k + 1) as nat) == dense_from(s, from, k).push(
            first_with_counter(s, from + k),
        ),
    decreases k,
{
    if k == 0 {
        assert(has_counter(s, from));
        assert(dense_from(s, from, 1nat) == seq![first_with_counter(s, from)] + dense_from(
            s,
            from + 1,
            0nat,
        ));
        assert(dense_from(s, from, 1nat) =~= dense_from(s, from, 0nat).push(
            first_with_counter(s, from),
        ));
    } else {
        assert(has_counter(s, from)) by {
            if !has_counter(s, from) {
                assert(dense_from(s, from, k).len() == 0);
            }
        }
        lemma_dense_step(s, from + 1, (k - 1) as nat);
        assert(seq![first_with_counter(s, from)] + dense_from(s, from + 1, k) =~= (seq![
            first_with_counter(s, from),
        ] + dense_from(s, from + 1, (k - 1) as nat)).push(first_with_counter(s, from + k)));
    }
}

/// Once a counter is missing, more fuel adds nothing to a dense run.
pub proof fn lemma_dense_stops(s: Seq<DebitAgreementProof>, from: int, k: nat, fuel: nat)
    requires
        k <= fuel,
        dense_from(s, from, k).len() == k,
        !has_counter(s, from + k),
    ensures
        dense_from(s, from, fuel) == dense_from(s, from, k),
    decreases k,
{
    if k == 0 {
        assert(dense_from(s, from, fuel) =~= Seq::<DebitAgreementProof>::empty());
    } else {
        assert(has_counter(s, from)) by {
            if !has_counter(s, from) {
                assert(dense_from(s, from, k).len() == 0);
            }
        }
        lemma_dense_stops(s, from + 1, (k - 1) as nat, (fuel - 1) as nat);
    }
}

/// Inserting into the accumulator updates the first entry of the
/// validation's group, when one exists.
pub proof fn lemma_acc_insert_found(acc: Seq<GroupModel>, v: TransferValidated, i: int)
    requires
        0 <= i < acc.len(),
        acc[i].replicas == v.replicas,
        forall|k: int| 0 <= k < i ==> (#[trigger] acc[k]).replicas != v.replicas,
    ensures
        acc_insert(acc, v) =~= acc.update(
            i,
            GroupModel { replicas: acc[i].replicas, validations: acc[i].validations.push(v) },
        ),
    decreases i,
{
    if i == 0 {
        assert(acc_insert(acc, v) =~= acc.update(
            0,
            GroupModel { replicas: acc[0].replicas, validations: acc[0].validations.push(v) },
        ));
    } else {
        lemma_acc_insert_found(acc.skip(1), v, i - 1);
        assert(seq![acc[0]] + acc.skip(1).update(
            i - 1,
            GroupModel {
                replicas: acc[i].replicas,
                validations: acc[i].validations.push(v),
            },
        ) =~= acc.update(
            i,
            GroupModel { replicas: acc[i].replicas, validations: acc[i].validations.push(v) },
        ));
    }
}

/// Inserting into the accumulator opens a new entry at the end when no entry
/// carries the validation's group.
pub proof fn lemma_acc_insert_new(acc: Seq<GroupModel>, v: TransferValidated)
    requires
        forall|k: int| 0 <= k < acc.len() ==> (#[trigger] acc[k]).replicas != v.replicas,
    ensures
        acc_insert(acc, v) =~= acc.push(
            GroupModel { replicas: v.replicas, validations: seq![v] },
        ),
    decreases acc.len(),
{
    if acc.len() == 0 {
        assert(acc_insert(acc, v) =~= acc.push(
            GroupModel { replicas: v.replicas, validations: seq![v] },
        ));
    } else {
        lemma_acc_insert_new(acc.skip(1), v);
        assert(seq![acc[0]] + acc.skip(1).push(
            GroupModel { replicas: v.replicas, validations: seq![v] },
        ) =~= acc.push(GroupModel { replicas: v.replicas, validations: seq![v] }));
    }
}

/// The validations accumulated for a group are those of its first entry.
pub proof fn lemma_acc_group_found(acc: Seq<GroupModel>, replicas: PublicKeySet, i: int)
    requires
        0 <= i < acc.len(),
        acc[i].replicas == replicas,
        forall|k: int| 0 <= k < i ==> (#[trigger] acc[k]).replicas != replicas,
    ensures
        acc_group_validations(acc, replicas) == acc[i].validations,
    decreases i,
{
    if i > 0 {
        lemma_acc_group_found(acc.skip(1), replicas, i - 1);
    }
}

/// A group with no entry has no accumulated validations.
pub proof fn lemma_acc_group_absent(acc: Seq<GroupModel>, replicas: PublicKeySet)
    requires
        forall|k: int| 0 <= k < acc.len() ==> (#[trigger] acc[k]).replicas != replicas,
    ensures
        acc_group_validations(acc, replicas) == Seq::<TransferValidated>::empty(),
    decreases acc.len(),
{
    if acc.len() > 0 {
        lemma_acc_group_absent(acc.skip(1), replicas);
    }
}

/// The debit counters of a well-formed account form the dense sequence
/// `0, 1, …` up to the number of debits.
pub proof fn lemma_debit_counters_dense(m: ActorModel)
    requires
        actor_model_inv(m),
    ensures
        forall|i: int|
            0 <= i < m.account.debits.len() ==> (#[trigger] m.account.debits[i]).id.counter == i,
{
}

/// The sequencing counter stays within one of the account's next debit: it
/// is one ahead exactly while a debit is in flight.
pub proof fn lemma_sequencing_window(m: ActorModel)
    requires
        actor_model_inv(m),
    ensures
        m.next_debit_version == m.account.debits.len() || m.next_debit_version
            == m.account.debits.len() + 1,
{
}

/// Applying an initiation puts the sequencing counter one ahead of the
/// account's next debit: a debit is now in flight.
pub proof fn lemma_initiation_opens_window(m: ActorModel, e: crate::TransferInitiated)
    requires
        valid_event(m, crate::ActorEvent::TransferInitiated(e)),
    ensures
        spec_apply(m, crate::ActorEvent::TransferInitiated(e)).next_debit_version == spec_apply(
            m,
            crate::ActorEvent::TransferInitiated(e),
        ).account.debits.len() + 1,
{
}

/// Applying a registration brings the account's next debit up to the
/// sequencing counter: nothing is in flight any more.
pub proof fn lemma_registration_closes_window(m: ActorModel, e: crate::TransferRegistrationSent)
    requires
        valid_event(m, crate::ActorEvent::TransferRegistrationSent(e)),
    ensures
        spec_apply(m, crate::ActorEvent::TransferRegistrationSent(e)).next_debit_version
            == spec_apply(
            m,
            crate::ActorEvent::TransferRegistrationSent(e),
        ).account.debits.len(),
{
}

/// Whether every validation in the accumulator is by this actor for the
/// debit the account expects next — the currently in-flight debit.
pub open spec fn accumulator_in_flight(m: ActorModel) -> bool {
    forall|i: int, j: int|
        0 <= i < m.accumulator.len() && 0 <= j < m.accumulator[i].validations.len() ==> (
        #[trigger] m.accumulator[i].validations[j]).signed_transfer.transfer.id.actor == m.id
            && m.accumulator[i].validations[j].signed_transfer.transfer.id.counter
            == m.account.debits.len()
}

/// Inserting a validation for the in-flight debit keeps every accumulated
/// validation matched to it.
proof fn lemma_acc_insert_in_flight(
    acc: Seq<GroupModel>,
    v: TransferValidated,
    id: PublicKey,
    c: int,
)
    requires
        forall|i: int, j: int|
            0 <= i < acc.len() && 0 <= j < acc[i].validations.len() ==> (
            #[trigger] acc[i].validations[j]).signed_transfer.transfer.id.actor == id
                && acc[i].validations[j].signed_transfer.transfer.id.counter == c,
        v.signed_transfer.transfer.id.actor == id,
        v.signed_transfer.transfer.id.counter == c,
    ensures
        forall|i: int, j: int|
            0 <= i < acc_insert(acc, v).len() && 0 <= j < acc_insert(acc, v)[i].validations.len()
                ==> (#[trigger] acc_insert(acc, v)[i].validations[j]).signed_transfer.transfer.id.actor
                == id && acc_insert(acc, v)[i].validations[j].signed_transfer.transfer.id.counter
                == c,
    decreases acc.len(),
{
    let out = acc_insert(acc, v);
    if acc.len() == 0 {
        assert forall|i: int, j: int|
            0 <= i < out.len() && 0 <= j < out[i].validations.len() implies (
        #[trigger] out[i].validations[j]).signed_transfer.transfer.id.actor == id
            && out[i].validations[j].signed_transfer.transfer.id.counter == c by {
            assert(out[i].validations[j] == v);
        }
    } else if acc[0].replicas == v.replicas {
        assert forall|i: int, j: int|
            0 <= i < out.len() && 0 <= j < out[i].validations.len() implies (
        #[trigger] out[i].validations[j]).signed_transfer.transfer.id.actor == id
            && out[i].validations[j].signed_transfer.transfer.id.counter == c by {
            if i == 0 {
                if j == out[0].validations.len() - 1 {
                    assert(out[0].validations[j] == v);
                } else {
                    assert(out[0].validations[j] == acc[0].validations[j]);
                }
            } else {
                assert(out[i] == acc[i]);
            }
        }
    } else {
        lemma_acc_insert_in_flight(acc.skip(1), v, id, c);
        let rec = acc_insert(acc.skip(1), v);
        assert forall|i: int, j: int|
            0 <= i < out.len() && 0 <= j < out[i].validations.len() implies (
        #[trigger] out[i].validations[j]).signed_transfer.transfer.id.actor == id
            && out[i].validations[j].signed_transfer.transfer.id.counter == c by {
            if i == 0 {
                assert(out[0] == acc[0]);
            } else {
                assert(out[i] == rec[i - 1]);
                assert(rec[i - 1].validations[j].signed_transfer.transfer.id.actor == id
                    && rec[i - 1].validations[j].signed_transfer.transfer.id.counter == c);
            }
        }
    }
}

/// Every validation in the accumulator matches the currently in-flight
/// debit, across every event but one: a synchronisation that applies debits
/// moves the account's expected counter while leaving the accumulator as it
/// is, so the property is stated for the other events.
pub proof fn lemma_accumulator_in_flight_preserved(m: ActorModel, event: crate::ActorEvent)
    requires
        accumulator_in_flight(m),
        valid_event(m, event),
        match event {
            crate::ActorEvent::TransfersSynched(e) => e.debits@.len() == 0,
            _ => true,
        },
    ensures
        accumulator_in_flight(spec_apply(m, event)),
{
    let out = spec_apply(m, event);
    match event {
        crate::ActorEvent::TransferInitiated(e) => {},
        crate::ActorEvent::TransferValidationReceived(e) => {
            lemma_acc_insert_in_flight(
                m.accumulator,
                e.validation,
                m.id,
                m.account.debits.len() as int,
            );
        },
        crate::ActorEvent::TransferRegistrationSent(e) => {},
        crate::ActorEvent::TransfersSynched(e) => {
            assert(synched_debits(e).len() == 0);
            assert(m.account.debits + synched_debits(e) =~= m.account.debits);
        },
    }
}

/// Applying a registration clears the accumulator.
pub proof fn lemma_registration_clears_accumulator(
    m: ActorModel,
    e: crate::TransferRegistrationSent,
)
    ensures
        spec_apply(m, crate::ActorEvent::TransferRegistrationSent(e)).accumulator.len() == 0,
{
}

/// The actor.
pub struct Actor<V: ReplicaValidator> {
    /// The account owner's public key.
    pub id: PublicKey,
    /// The owner's signing key holder.
    pub client_id: ClientFullId,
    /// The set of all transfers impacting the account.
    pub account: Account,
    /// The counter of the next debit to initiate; keeps initiations
    /// sequential.
    pub next_debit_version: u64,
    /// Validations accumulate here while a debit is in flight; the
    /// accumulator is cleared when the registration event is applied.
    pub accumulating_validations: Vec<GroupValidations>,
    /// The public key set of the actor's own replicas.
    pub replicas: PublicKeySet,
    /// The injected predicate deciding which remote replica groups are
    /// valid.
    pub replica_validator: V,
}

impl<V: ReplicaValidator> Actor<V> {
    /// The mathematical content of the accumulator.
    pub open spec fn acc_model(&self) -> Seq<GroupModel> {
        self.accumulating_validations@.map_values(
            |g: GroupValidations| GroupModel { replicas: g.replicas, validations: g.validations@ },
        )
    }

    /// The mathematical content of this actor.
    pub open spec fn model(&self) -> ActorModel {
        ActorModel {
            id: self.id,
            client_id: self.client_id,
            account: self.account.model(),
            next_debit_version: self.next_debit_version,
            accumulator: self.acc_model(),
            replicas: self.replicas,
        }
    }

    /// Well-formedness: see [`actor_model_inv`].
    pub open spec fn inv(&self) -> bool {
        actor_model_inv(self.model())
    }

    /// Creates an actor with an empty account. Pass in the key set of this
    /// actor's own replicas and the membership layer's replica validator.
    pub fn new(client_id: ClientFullId, replicas: PublicKeySet, replica_validator: V) -> (r: Actor<
        V,
    >)
        ensures
            r.inv(),
            r.id == client_public_key(client_id),
            r.client_id == client_id,
            r.replicas == replicas,
            r.next_debit_version == 0,
            r.account.credits@ =~= Seq::<crate::types::Transfer>::empty(),
            r.account.debits@ =~= Seq::<crate::types::Transfer>::empty(),
            r.acc_model() =~= Seq::<GroupModel>::empty(),
    {
        let id = client_key_of(&client_id);
        Actor {
            id,
            client_id,
            account: Account::new(id),
            next_debit_version: 0,
            accumulating_validations: Vec::new(),
            replicas,
            replica_validator,
        }
    }

    /// Creates an actor over an existing account snapshot. The snapshot must
    /// belong to the key holder and be well formed.
    pub fn from_snapshot(
        account: Account,
        client_id: ClientFullId,
        replicas: PublicKeySet,
        replica_validator: V,
    ) -> (r: Actor<V>)
        requires
            account.inv(),
            account.id == client_public_key(client_id),
            account.debits@.len() == 0,
        ensures
            r.inv(),
            r.id == client_public_key(client_id),
            r.client_id == client_id,
            r.replicas == replicas,
            r.next_debit_version == 0,
            r.account == account,
            r.acc_model() =~= Seq::<GroupModel>::empty(),
    {
        let id = client_key_of(&client_id);
        Actor {
            id,
            client_id,
            account,
            next_debit_version: 0,
            accumulating_validations: Vec::new(),
            replicas,
            replica_validator,
        }
    }

    /// The id of the actor.
    pub fn id(&self) -> (r: PublicKey)
        ensures
            r == self.id,
    {
        self.id
    }

    /// The credits applied since the given index.
    pub fn credits_since(&self, index: usize) -> (r: Vec<crate::types::Transfer>)
        ensures
            r@ == if index <= self.account.credits@.len() {
                self.account.credits@.skip(index as int)
            } else {
                Seq::<crate::types::Transfer>::empty()
            },
    {
        self.account.credits_since(index)
    }

    /// The debits applied since the given index.
    pub fn debits_since(&self, index: usize) -> (r: Vec<crate::types::Transfer>)
        ensures
            r@ == if index <= self.account.debits@.len() {
                self.account.debits@.skip(index as int)
            } else {
                Seq::<crate::types::Transfer>::empty()
            },
    {
        self.account.debits_since(index)
    }

    /// The balance of the account.
    pub fn balance(&self) -> (r: u64)
        requires
            self.inv(),
        ensures
            r == crate::account::account_balance(self.account.model()),
    {
        self.account.balance()
    }

    /// What `transfer` returns, as a function of state and arguments.
    pub open spec fn spec_transfer(&self, amount: u64, to: PublicKey) -> Result<
        TransferInitiated,
        Error,
    > {
        if to == self.id {
            Err(Error::SameSenderAndRecipient)
        } else if self.next_debit_version != self.account.debits@.len() {
            Err(Error::PendingDebitNotCompleted)
        } else if amount > crate::account::account_balance(self.account.model()) {
            Err(Error::InsufficientBalance)
        } else {
            let t = Transfer {
                id: Dot { actor: self.id, counter: self.next_debit_version },
                to,
                amount,
            };
            match transfer_ser(t) {
                Some(b) => Ok(
                    TransferInitiated {
                        signed_transfer: SignedTransfer {
                            transfer: t,
                            actor_signature: signed_by(self.client_id, b),
                        },
                    },
                ),
                None => Err(Error::Serialisation),
            }
        }
    }

    /// Step one of the debit protocol: build a signed transfer for the
    /// replicas to validate. Pure: the same state and arguments give the
    /// same result. Succeeds exactly when the recipient is someone else, no
    /// debit is in flight, the amount is covered, and the transfer
    /// serialises; the emitted transfer carries the next debit counter and a
    /// signature that verifies under this actor's key.
    pub fn transfer(&self, amount: u64, to: PublicKey) -> (r: Result<TransferInitiated, Error>)
        requires
            self.inv(),
            self.account.debits@.len() < u64::MAX,
        ensures
            r == self.spec_transfer(amount, to),
            r matches Ok(ev) ==> valid_event(
                self.model(),
                crate::ActorEvent::TransferInitiated(ev),
            ),
            r matches Ok(ev) ==> actor_sig_ok(self.id, ev.signed_transfer),
    {
        if public_key_eq(&to, &self.id) {
            return Err(Error::SameSenderAndRecipient);
        }
        let next = self.account.next_debit();
        if self.next_debit_version != next {
            return Err(Error::PendingDebitNotCompleted);
        }
        if amount > self.balance() {
            return Err(Error::InsufficientBalance);
        }
        let t = Transfer { id: Dot { actor: self.id, counter: next }, to, amount };
        match serialize_transfer(&t) {
            Ok(data) => {
                let actor_signature = sign_bytes(&self.client_id, &data);
                Ok(TransferInitiated { signed_transfer: SignedTransfer { transfer: t, actor_signature } })
            },
            Err(e) => Err(e),
        }
    }

    /// What `receive` returns, as a function of state and arguments.
    pub open spec fn spec_receive(&self, v: TransferValidated) -> Result<
        crate::TransferValidationReceived,
        Error,
    > {
        if !(actor_sig_ok(self.id, v.signed_transfer) && share_sig_ok(v)) {
            Err(Error::InvalidSignature)
        } else if v.signed_transfer.transfer.id.actor != self.id {
            Err(Error::NotIntendedForThisActor)
        } else if v.signed_transfer.transfer.id.counter != self.account.debits@.len() {
            Err(Error::OutOfOrderValidation)
        } else if acc_contains_validation(self.acc_model(), v) {
            Err(Error::AlreadyReceivedValidation)
        } else {
            Ok(
                crate::TransferValidationReceived {
                    validation: v,
                    proof: spec_proof_outcome(self.acc_model(), v),
                },
            )
        }
    }

    /// Step two of the debit protocol: take in a replica's validation of the
    /// in-flight transfer. Pure. Signatures are verified first; the
    /// validation must be for this actor's next debit and must be new. The
    /// returned event carries a debit agreement proof exactly when this
    /// validation completes a quorum whose shares combine into a signature
    /// that verifies — so a returned proof always verifies under the key of
    /// the group that produced it (soundness), and with the quorum reached
    /// and all accumulated shares valid and distinct, a proof is always
    /// returned (liveness).
    pub fn receive(&self, validation: TransferValidated) -> (r: Result<
        crate::TransferValidationReceived,
        Error,
    >)
        requires
            self.inv(),
        ensures
            r == self.spec_receive(validation),
            r matches Ok(ev) ==> valid_event(
                self.model(),
                crate::ActorEvent::TransferValidationReceived(ev),
            ),
            r matches Ok(ev) ==> (ev.proof matches Some(p) ==> p.signed_transfer
                == validation.signed_transfer && p.replica_key == validation.replicas
                && registered_sig_ok(p.replica_key, p)),
            r matches Ok(ev) ==> ((quorum_reached(self.acc_model(), validation)
                && pairs_distinct(receive_pairs(self.acc_model(), validation))
                && accumulated_valid(self.acc_model(), validation)) ==> ev.proof is Some),
            r matches Ok(ev) ==> (!quorum_reached(self.acc_model(), validation) ==> ev.proof
                is None),
    {
        // Always verify signatures first, as to not leak any information.
        if !(self.verify_is_our_transfer(&validation.signed_transfer) && self.verify_share_of(
            &validation,
        )) {
            return Err(Error::InvalidSignature);
        }
        if !public_key_eq(&validation.signed_transfer.transfer.id.actor, &self.id) {
            return Err(Error::NotIntendedForThisActor);
        }
        if validation.signed_transfer.transfer.id.counter != self.account.next_debit() {
            return Err(Error::OutOfOrderValidation);
        }
        if self.already_received(&validation) {
            return Err(Error::AlreadyReceivedValidation);
        }
        let proof = self.try_build_proof(&validation);
        Ok(crate::TransferValidationReceived { validation, proof })
    }

    /// Whether the exact same validation already sits in the accumulator.
    fn already_received(&self, v: &TransferValidated) -> (r: bool)
        ensures
            r == acc_contains_validation(self.acc_model(), *v),
    {
        let ghost acc = self.acc_model();
        let n = self.accumulating_validations.len();
        let mut i: usize = 0;
        while i < n
            invariant
                acc == self.acc_model(),
                n == self.accumulating_validations@.len(),
                0 <= i <= n,
                forall|x: int, y: int|
                    0 <= x < i && 0 <= y < acc[x].validations.len() ==> (
                    #[trigger] acc[x].validations[y]) != *v,
            decreases n - i,
        {
            let m = self.accumulating_validations[i].validations.len();
            let mut j: usize = 0;
            while j < m
                invariant
                    acc == self.acc_model(),
                    n == self.accumulating_validations@.len(),
                    0 <= i < n,
                    m == acc[i as int].validations.len(),
                    0 <= j <= m,
                    forall|x: int, y: int|
                        0 <= x < i && 0 <= y < acc[x].validations.len() ==> (
                        #[trigger] acc[x].validations[y]) != *v,
                    forall|y: int|
                        0 <= y < j ==> (#[trigger] acc[i as int].validations[y]) != *v,
                decreases m - j,
            {
                if self.accumulating_validations[i].validations[j] == *v {
                    proof {
                        assert(acc[i as int].validations[j as int] == *v);
                        assert(acc_contains_validation(acc, *v));
                    }
                    return true;
                }
                j = j + 1;
            }
            i = i + 1;
        }
        proof {
            if acc_contains_validation(acc, *v) {
                let (x, y): (int, int) = choose|x: int, y: int|
                    0 <= x < acc.len() && 0 <= y < acc[x].validations.len() && acc[x].validations[y]
                        == *v;
                assert(acc[x].validations[y] != *v);
            }
        }
        false
    }

    /// Runs the quorum rule against the accumulator and, when it fires,
    /// combines the accumulated shares with the incoming one and checks the
    /// result.
    fn try_build_proof(&self, v: &TransferValidated) -> (r: Option<DebitAgreementProof>)
        requires
            self.inv(),
        ensures
            r == spec_proof_outcome(self.acc_model(), *v),
            (quorum_reached(self.acc_model(), *v) && pairs_distinct(
                receive_pairs(self.acc_model(), *v),
            ) && accumulated_valid(self.acc_model(), *v)) ==> r is Some,
    {
        let ghost acc = self.acc_model();
        let n = self.accumulating_validations.len();
        let fidx = self.find_group(&v.replicas);
        let mut max_len: usize = 0;
        let mut i: usize = 0;
        while i < n
            invariant
                acc == self.acc_model(),
                n == self.accumulating_validations@.len(),
                0 <= i <= n,
                forall|k: int| 0 <= k < i ==> (#[trigger] acc[k]).validations.len() <= max_len,
                max_len == 0 || exists|k: int|
                    0 <= k < i && (#[trigger] acc[k]).validations.len() == max_len,
            decreases n - i,
        {
            let l = self.accumulating_validations[i].validations.len();
            if l > max_len {
                max_len = l;
            }
            proof {
                if max_len != 0 {
                    if l == max_len {
                        assert(acc[i as int].validations.len() == max_len);
                    } else {
                        let k0 = choose|k: int|
                            0 <= k < i && (#[trigger] acc[k]).validations.len() == max_len;
                        assert(0 <= k0 < i + 1 && acc[k0].validations.len() == max_len);
                    }
                }
            }
            i = i + 1;
        }
        let count: usize = match fidx {
            Some(gi) => {
                proof {
                    lemma_acc_group_found(acc, v.replicas, gi as int);
                }
                self.accumulating_validations[gi].validations.len()
            },
            None => {
                proof {
                    lemma_acc_group_absent(acc, v.replicas);
                }
                0
            },
        };
        let threshold = threshold_of(&v.replicas);
        let quorum = n > 0 && count >= threshold && max_len <= count;
        proof {
            assert(count == acc_group_validations(acc, v.replicas).len());
            if quorum {
                assert(quorum_reached(acc, *v));
            }
            if quorum_reached(acc, *v) {
                assert(n > 0);
                assert(count >= threshold);
                assert(max_len <= count) by {
                    if max_len > 0 {
                        let k = choose|k: int|
                            0 <= k < n && (#[trigger] acc[k]).validations.len() == max_len;
                        assert(acc[k].validations.len() <= count);
                    }
                }
            }
        }
        if !quorum {
            return None;
        }
        // Collect the accumulated share pairs of the group, then the
        // incoming one.
        let mut pairs: Vec<(usize, threshold_crypto::SignatureShare)> = Vec::new();
        let ghost gvals = acc_group_validations(acc, v.replicas);
        match fidx {
            Some(gi) => {
                let m = self.accumulating_validations[gi].validations.len();
                let mut j: usize = 0;
                while j < m
                    invariant
                        acc == self.acc_model(),
                        n == self.accumulating_validations@.len(),
                        gi < n,
                        gvals == acc_group_validations(acc, v.replicas),
                        acc[gi as int].validations == gvals,
                        m == gvals.len(),
                        0 <= j <= m,
                        pairs@ == share_pairs(gvals.take(j as int)),
                    decreases m - j,
                {
                    proof {
                        assert(share_pairs(gvals.take(j as int)).push(
                            (
                                gvals[j as int].replica_signature.index,
                                gvals[j as int].replica_signature.share,
                            ),
                        ) =~= share_pairs(gvals.take(j + 1)));
                    }
                    let w = &self.accumulating_validations[gi].validations[j];
                    pairs.push((w.replica_signature.index, clone_bls_share(&w.replica_signature.share)));
                    j = j + 1;
                }
                proof {
                    assert(gvals.take(m as int) =~= gvals);
                }
            },
            None => {
                proof {
                    assert(share_pairs(gvals) =~= Seq::<
                        (usize, threshold_crypto::SignatureShare),
                    >::empty());
                }
            },
        }
        pairs.push((v.replica_signature.index, clone_bls_share(&v.replica_signature.share)));
        proof {
            assert(pairs@ =~= receive_pairs(acc, *v));
        }
        match serialize_signed_transfer(&v.signed_transfer) {
            Ok(data) => {
                match combine_shares(&v.replicas, &pairs) {
                    Some(sig) => {
                        let pk = public_key_of_set(&v.replicas);
                        if verify_signature(&pk, &sig, &data) {
                            Some(
                                DebitAgreementProof {
                                    signed_transfer: v.signed_transfer.clone(),
                                    debiting_replicas_sig: sig,
                                    replica_key: crate::crypto::clone_key_set(&v.replicas),
                                },
                            )
                        } else {
                            None
                        }
                    },
                    None => None,
                }
            },
            Err(_) => None,
        }
    }

    /// What `register` returns, as a function of state and arguments.
    pub open spec fn spec_register(&self, p: DebitAgreementProof) -> Result<
        TransferRegistrationSent,
        Error,
    > {
        if !debit_proof_ok(self.id, self.replicas, p) {
            Err(Error::InvalidSignature)
        } else if p.signed_transfer.transfer.id.actor != self.account.id {
            Err(Error::InvalidOperation)
        } else if p.signed_transfer.transfer.id.counter == self.account.debits@.len() {
            Ok(TransferRegistrationSent { debit_proof: p })
        } else {
            Err(Error::NonSequentialRegistration)
        }
    }

    /// Step three of the debit protocol: check an agreed debit proof before
    /// its registration is sent to the replicas. Pure. Succeeds exactly when
    /// both signatures verify (the actor's own, and the aggregated replica
    /// signature under the actor's current replica key set) and the debit is
    /// the account's next one.
    pub fn register(&self, debit_proof: DebitAgreementProof) -> (r: Result<
        TransferRegistrationSent,
        Error,
    >)
        requires
            self.inv(),
        ensures
            r == self.spec_register(debit_proof),
    {
        if !self.verify_debit_proof(&debit_proof) {
            return Err(Error::InvalidSignature);
        }
        match self.account.is_sequential(&debit_proof.signed_transfer.transfer) {
            Ok(true) => Ok(TransferRegistrationSent { debit_proof }),
            Ok(false) => Err(Error::NonSequentialRegistration),
            Err(_) => Err(Error::InvalidOperation),
        }
    }

    /// What a propagated credit must pass to be synchronised: the remote
    /// group is valid per the injected predicate, its proof verifies, the
    /// credit is to this actor from someone else, and it is new to the
    /// account.
    pub open spec fn credit_keep(&self, c: ReceivedCredit) -> bool {
        &&& self.replica_validator.valid_spec(c.debiting_replicas)
        &&& credit_proof_sig_ok(c)
        &&& c.debit_proof.signed_transfer.transfer.to == self.id
        &&& c.debit_proof.signed_transfer.transfer.id.actor != self.id
        &&& !self.account.spec_contains(c.debit_proof.signed_transfer.transfer.id)
    }

    /// The credits of the list that pass [`Self::credit_keep`], in order.
    pub open spec fn filter_credits(&self, s: Seq<ReceivedCredit>) -> Seq<ReceivedCredit>
        decreases s.len(),
    {
        if s.len() == 0 {
            Seq::empty()
        } else {
            let prev = self.filter_credits(s.drop_last());
            if self.credit_keep(s.last()) {
                prev.push(s.last())
            } else {
                prev
            }
        }
    }

    /// The credits `synch` accepts from a batch of replica events.
    pub open spec fn spec_valid_credits(&self, events: Seq<crate::ReplicaEvent>) -> Seq<
        ReceivedCredit,
    > {
        self.filter_credits(propagated_fold(events))
    }

    /// What a registered debit must pass to be synchronised: it debits this
    /// actor, at or after the next expected counter, and its proof verifies
    /// under the actor's current replica key set.
    pub open spec fn debit_keep(&self, p: DebitAgreementProof) -> bool {
        &&& p.signed_transfer.transfer.id.actor == self.id
        &&& p.signed_transfer.transfer.id.counter >= self.account.debits@.len()
        &&& debit_proof_ok(self.id, self.replicas, p)
    }

    /// The proofs of the list that pass [`Self::debit_keep`], in order.
    pub open spec fn filter_debits(&self, s: Seq<DebitAgreementProof>) -> Seq<DebitAgreementProof>
        decreases s.len(),
    {
        if s.len() == 0 {
            Seq::empty()
        } else {
            let prev = self.filter_debits(s.drop_last());
            if self.debit_keep(s.last()) {
                prev.push(s.last())
            } else {
                prev
            }
        }
    }

    /// The debits `synch` accepts from a batch of replica events: the
    /// longest run dense from the next expected counter, so debits stay
    /// dense.
    pub open spec fn spec_valid_debits(&self, events: Seq<crate::ReplicaEvent>) -> Seq<
        DebitAgreementProof,
    > {
        let pool = self.filter_debits(registered_fold(events));
        dense_from(pool, self.account.debits@.len() as int, pool.len())
    }

    /// Synchronise with replica events: ingest credits propagated from
    /// remote groups and debits registered by other instances of this same
    /// actor. Pure. Returns an event exactly when something applicable was
    /// found.
    pub fn synch(&self, events: Vec<crate::ReplicaEvent>) -> (r: Result<
        crate::TransfersSynched,
        Error,
    >)
        requires
            self.inv(),
        ensures
            match r {
                Ok(ev) => ev.credits@ == self.spec_valid_credits(events@) && ev.debits@
                    == self.spec_valid_debits(events@) && (ev.credits@.len() > 0
                    || ev.debits@.len() > 0),
                Err(e) => e == Error::NothingToSync && self.spec_valid_credits(events@).len() == 0
                    && self.spec_valid_debits(events@).len() == 0,
            },
    {
        let credits = self.validate_credits(&events);
        let debits = self.validate_debits(&events);
        if credits.len() > 0 || debits.len() > 0 {
            Ok(crate::TransfersSynched { credits, debits })
        } else {
            Err(Error::NothingToSync)
        }
    }

    /// The deduplicated propagated credits of the events that pass the
    /// credit checks.
    fn validate_credits(&self, events: &Vec<crate::ReplicaEvent>) -> (r: Vec<ReceivedCredit>)
        ensures
            r@ == self.spec_valid_credits(events@),
    {
        let mut cands: Vec<ReceivedCredit> = Vec::new();
        let n = events.len();
        let mut i: usize = 0;
        while i < n
            invariant
                n == events@.len(),
                0 <= i <= n,
                cands@ == propagated_fold(events@.take(i as int)),
            decreases n - i,
        {
            proof {
                assert(events@.take(i + 1).drop_last() =~= events@.take(i as int));
                assert(events@.take(i + 1).last() == events@[i as int]);
            }
            match &events[i] {
                crate::ReplicaEvent::TransferPropagated { debit_proof, debiting_replicas } => {
                    if !Self::credits_contain(&cands, &debit_proof.signed_transfer.transfer.id) {
                        cands.push(
                            ReceivedCredit {
                                debit_proof: debit_proof.clone(),
                                debiting_replicas: *debiting_replicas,
                            },
                        );
                    }
                },
                _ => {},
            }
            i = i + 1;
        }
        proof {
            assert(events@.take(n as int) =~= events@);
        }
        let mut r: Vec<ReceivedCredit> = Vec::new();
        let m = cands.len();
        let mut j: usize = 0;
        while j < m
            invariant
                m == cands@.len(),
                0 <= j <= m,
                r@ == self.filter_credits(cands@.take(j as int)),
            decreases m - j,
        {
            proof {
                assert(cands@.take(j + 1).drop_last() =~= cands@.take(j as int));
                assert(cands@.take(j + 1).last() == cands@[j as int]);
            }
            let keep = self.verify_credit_proof(&cands[j]) && public_key_eq(
                &cands[j].debit_proof.signed_transfer.transfer.to,
                &self.id,
            ) && !public_key_eq(&cands[j].debit_proof.signed_transfer.transfer.id.actor, &self.id)
                && !self.account.contains(&cands[j].debit_proof.signed_transfer.transfer.id);
            if keep {
                r.push(cands[j].clone());
            }
            j = j + 1;
        }
        proof {
            assert(cands@.take(m as int) =~= cands@);
        }
        r
    }

    /// The deduplicated registered debits of the events that pass the debit
    /// checks, cut to the longest run dense from the next expected counter.
    fn validate_debits(&self, events: &Vec<crate::ReplicaEvent>) -> (r: Vec<DebitAgreementProof>)
        ensures
            r@ == self.spec_valid_debits(events@),
    {
        let mut cands: Vec<DebitAgreementProof> = Vec::new();
        let n = events.len();
        let mut i: usize = 0;
        while i < n
            invariant
                n == events@.len(),
                0 <= i <= n,
                cands@ == registered_fold(events@.take(i as int)),
            decreases n - i,
        {
            proof {
                assert(events@.take(i + 1).drop_last() =~= events@.take(i as int));
                assert(events@.take(i + 1).last() == events@[i as int]);
            }
            match &events[i] {
                crate::ReplicaEvent::TransferRegistered { debit_proof } => {
                    if !Self::proofs_contain(&cands, &debit_proof.signed_transfer.transfer.id) {
                        cands.push(debit_proof.clone());
                    }
                },
                _ => {},
            }
            i = i + 1;
        }
        proof {
            assert(events@.take(n as int) =~= events@);
        }
        let mut pool: Vec<DebitAgreementProof> = Vec::new();
        let m = cands.len();
        let mut j: usize = 0;
        while j < m
            invariant
                m == cands@.len(),
                0 <= j <= m,
                pool@ == self.filter_debits(cands@.take(j as int)),
            decreases m - j,
        {
            proof {
                assert(cands@.take(j + 1).drop_last() =~= cands@.take(j as int));
                assert(cands@.take(j + 1).last() == cands@[j as int]);
            }
            let keep = public_key_eq(&cands[j].signed_transfer.transfer.id.actor, &self.id)
                && cands[j].signed_transfer.transfer.id.counter >= self.account.next_debit()
                && self.verify_debit_proof(&cands[j]);
            if keep {
                pool.push(cands[j].clone());
            }
            j = j + 1;
        }
        proof {
            assert(cands@.take(m as int) =~= cands@);
        }
        // Accept the longest dense run from the next expected counter.
        let nd = self.account.next_debit();
        let npool = pool.len();
        let mut r: Vec<DebitAgreementProof> = Vec::new();
        let mut target: u64 = nd;
        let mut steps: usize = 0;
        while steps < npool
            invariant
                npool == pool@.len(),
                0 <= steps <= npool,
                r@.len() == steps,
                r@ == dense_from(pool@, nd as int, steps as nat),
                target == nd + steps,
                nd == self.account.debits@.len(),
                pool@ == self.filter_debits(registered_fold(events@)),
            decreases npool - steps,
        {
            match Self::find_counter(&pool, target) {
                None => {
                    proof {
                        lemma_dense_stops(pool@, nd as int, steps as nat, npool as nat);
                    }
                    return r;
                },
                Some(jj) => {
                    proof {
                        lemma_first_with_counter(pool@, target as int, jj as int);
                        lemma_dense_step(pool@, nd as int, steps as nat);
                    }
                    r.push(pool[jj].clone());
                    steps = steps + 1;
                    if target == u64::MAX {
                        proof {
                            assert(!has_counter(pool@, nd + steps)) by {
                                if has_counter(pool@, nd + steps) {
                                    let w = choose|x: int|
                                        0 <= x < pool@.len() && (
                                        #[trigger] pool@[x]).signed_transfer.transfer.id.counter
                                            == nd + steps;
                                    assert(pool@[w].signed_transfer.transfer.id.counter
                                        <= u64::MAX);
                                }
                            }
                            lemma_dense_stops(pool@, nd as int, steps as nat, npool as nat);
                        }
                        return r;
                    }
                    target = target + 1;
                },
            }
        }
        r
    }

    /// Whether some credit in the list carries the given transfer identity.
    fn credits_contain(list: &Vec<ReceivedCredit>, id: &Dot) -> (r: bool)
        ensures
            r == credits_contain_dot(list@, *id),
    {
        let n = list.len();
        let mut i: usize = 0;
        while i < n
            invariant
                n == list@.len(),
                0 <= i <= n,
                forall|k: int|
                    0 <= k < i ==> (#[trigger] list@[k]).debit_proof.signed_transfer.transfer.id
                        != *id,
            decreases n - i,
        {
            if list[i].debit_proof.signed_transfer.transfer.id == *id {
                return true;
            }
            i = i + 1;
        }
        proof {
            if credits_contain_dot(list@, *id) {
                let w = choose|x: int|
                    0 <= x < list@.len() && (#[trigger] list@[x]).debit_proof.signed_transfer.transfer.id
                        == *id;
                assert(list@[w].debit_proof.signed_transfer.transfer.id != *id);
            }
        }
        false
    }

    /// Whether some proof in the list carries the given transfer identity.
    fn proofs_contain(list: &Vec<DebitAgreementProof>, id: &Dot) -> (r: bool)
        ensures
            r == proofs_contain_dot(list@, *id),
    {
        let n = list.len();
        let mut i: usize = 0;
        while i < n
            invariant
                n == list@.len(),
                0 <= i <= n,
                forall|k: int|
                    0 <= k < i ==> (#[trigger] list@[k]).signed_transfer.transfer.id != *id,
            decreases n - i,
        {
            if list[i].signed_transfer.transfer.id == *id {
                return true;
            }
            i = i + 1;
        }
        proof {
            if proofs_contain_dot(list@, *id) {
                let w = choose|x: int|
                    0 <= x < list@.len() && (#[trigger] list@[x]).signed_transfer.transfer.id
                        == *id;
                assert(list@[w].signed_transfer.transfer.id != *id);
            }
        }
        false
    }

    /// The first proof in the list debiting the given counter, if any.
    fn find_counter(pool: &Vec<DebitAgreementProof>, c: u64) -> (r: Option<usize>)
        ensures
            match r {
                Some(j) => j < pool@.len() && pool@[j as int].signed_transfer.transfer.id.counter
                    == c && (forall|k: int|
                    0 <= k < j ==> (#[trigger] pool@[k]).signed_transfer.transfer.id.counter != c),
                None => !has_counter(pool@, c as int),
            },
    {
        let n = pool.len();
        let mut i: usize = 0;
        while i < n
            invariant
                n == pool@.len(),
                0 <= i <= n,
                forall|k: int|
                    0 <= k < i ==> (#[trigger] pool@[k]).signed_transfer.transfer.id.counter != c,
            decreases n - i,
        {
            if pool[i].signed_transfer.transfer.id.counter == c {
                return Some(i);
            }
            i = i + 1;
        }
        proof {
            if has_counter(pool@, c as int) {
                let w = choose|x: int|
                    0 <= x < pool@.len() && (#[trigger] pool@[x]).signed_transfer.transfer.id.counter
                        == c;
                assert(pool@[w].signed_transfer.transfer.id.counter != c);
            }
        }
        None
    }

    /// Mutation: folds an event into the state. Events are trusted to be
    /// valid — they are produced by this actor's own pure commands — so the
    /// state becomes exactly the [`spec_apply`] transition. The accumulator
    /// is cleared exactly when a registration event is applied.
    pub fn apply(&mut self, event: crate::ActorEvent)
        requires
            old(self).inv(),
            valid_event(old(self).model(), event),
        ensures
            final(self).inv(),
            final(self).model() == spec_apply(old(self).model(), event),
            final(self).replica_validator == old(self).replica_validator,
    {
        let ghost m0 = self.model();
        let ghost ev = event;
        match event {
            crate::ActorEvent::TransferInitiated(e) => {
                self.next_debit_version = e.id().counter + 1;
                proof {
                    assert(self.model() =~= spec_apply(m0, ev));
                }
            },
            crate::ActorEvent::TransferValidationReceived(e) => {
                if e.proof.is_some() {
                    self.replicas = crate::crypto::clone_key_set(&e.validation.replicas);
                }
                self.insert_validation(e.validation);
                proof {
                    assert(self.model() =~= spec_apply(m0, ev));
                }
            },
            crate::ActorEvent::TransferRegistrationSent(e) => {
                self.account.append(e.debit_proof.signed_transfer.transfer);
                self.accumulating_validations = Vec::new();
                proof {
                    assert(self.acc_model() =~= Seq::<GroupModel>::empty());
                    assert(self.model() =~= spec_apply(m0, ev));
                }
            },
            crate::ActorEvent::TransfersSynched(e) => {
                let ghost cs = synched_credits(e);
                let ghost ds = synched_debits(e);
                let n = e.credits.len();
                let mut k: usize = 0;
                while k < n
                    invariant
                        n == e.credits@.len(),
                        0 <= k <= n,
                        cs == synched_credits(e),
                        ds == synched_debits(e),
                        valid_event(m0, crate::ActorEvent::TransfersSynched(e)),
                        self.account.inv(),
                        self.account.id == m0.id,
                        self.account.credits@ == m0.account.credits + cs.take(k as int),
                        self.account.debits@ == m0.account.debits,
                        self.id == m0.id,
                        self.client_id == m0.client_id,
                        self.next_debit_version == m0.next_debit_version,
                        self.acc_model() == m0.accumulator,
                        self.replicas == m0.replicas,
                        self.replica_validator == old(self).replica_validator,
                    decreases n - k,
                {
                    proof {
                        crate::account::lemma_sum_add(m0.account.credits, cs.take(k as int));
                        crate::account::lemma_sum_take_succ(cs, k as int);
                        crate::account::lemma_sum_take_bound(cs, k + 1);
                        crate::account::lemma_sum_nonneg(cs.take(k as int));
                        assert(cs.take(k as int).push(cs[k as int]) =~= cs.take(k + 1));
                    }
                    self.account.append(e.credits[k].debit_proof.signed_transfer.transfer);
                    k = k + 1;
                }
                proof {
                    assert(cs.take(n as int) =~= cs);
                }
                let dn = e.debits.len();
                let mut j: usize = 0;
                while j < dn
                    invariant
                        dn == e.debits@.len(),
                        0 <= j <= dn,
                        cs == synched_credits(e),
                        ds == synched_debits(e),
                        valid_event(m0, crate::ActorEvent::TransfersSynched(e)),
                        self.account.inv(),
                        self.account.id == m0.id,
                        self.account.credits@ == m0.account.credits + cs,
                        self.account.debits@ == m0.account.debits + ds.take(j as int),
                        self.id == m0.id,
                        self.client_id == m0.client_id,
                        self.next_debit_version == m0.next_debit_version,
                        self.acc_model() == m0.accumulator,
                        self.replicas == m0.replicas,
                        self.replica_validator == old(self).replica_validator,
                    decreases dn - j,
                {
                    proof {
                        crate::account::lemma_sum_add(m0.account.credits, cs);
                        crate::account::lemma_sum_add(m0.account.debits, ds.take(j as int));
                        crate::account::lemma_sum_take_succ(ds, j as int);
                        crate::account::lemma_sum_take_bound(ds, j + 1);
                        crate::account::lemma_sum_nonneg(ds.take(j as int));
                        assert(ds.take(j as int).push(ds[j as int]) =~= ds.take(j + 1));
                    }
                    self.account.append(e.debits[j].signed_transfer.transfer);
                    j = j + 1;
                }
                proof {
                    assert(ds.take(dn as int) =~= ds);
                }
                if e.debits.len() > 0 {
                    self.next_debit_version = self.account.next_debit();
                }
                proof {
                    assert(self.model() =~= spec_apply(m0, ev));
                }
            },
        }
    }

    /// The first accumulator entry of the given replica group, if any.
    fn find_group(&self, replicas: &PublicKeySet) -> (r: Option<usize>)
        ensures
            match r {
                Some(i) => i < self.acc_model().len() && self.acc_model()[i as int].replicas
                    == *replicas && (forall|k: int|
                    0 <= k < i ==> (#[trigger] self.acc_model()[k]).replicas != *replicas),
                None => forall|k: int|
                    0 <= k < self.acc_model().len() ==> (#[trigger] self.acc_model()[k]).replicas
                        != *replicas,
            },
    {
        let n = self.accumulating_validations.len();
        let mut i: usize = 0;
        while i < n
            invariant
                n == self.accumulating_validations@.len(),
                0 <= i <= n,
                forall|k: int|
                    0 <= k < i ==> (#[trigger] self.acc_model()[k]).replicas != *replicas,
            decreases n - i,
        {
            if crate::crypto::key_set_eq(&self.accumulating_validations[i].replicas, replicas) {
                return Some(i);
            }
            i = i + 1;
        }
        None
    }

    /// Appends a validation to its group's accumulator entry, opening the
    /// entry if the group is new.
    fn insert_validation(&mut self, v: TransferValidated)
        requires
            old(self).inv(),
            v.signed_transfer.transfer.id.actor == old(self).id,
            v.signed_transfer.transfer.id.counter == old(self).account.debits@.len(),
            !acc_contains_validation(old(self).acc_model(), v),
        ensures
            final(self).inv(),
            final(self).id == old(self).id,
            final(self).client_id == old(self).client_id,
            final(self).account == old(self).account,
            final(self).next_debit_version == old(self).next_debit_version,
            final(self).replicas == old(self).replicas,
            final(self).replica_validator == old(self).replica_validator,
            final(self).acc_model() == acc_insert(old(self).acc_model(), v),
    {
        let ghost acc0 = self.acc_model();
        proof {
            assert(acc0 == old(self).model().accumulator);
            assert(forall|x: int, y: int, z: int|
                0 <= x < acc0.len() && 0 <= y < z < acc0[x].validations.len() ==> (
                #[trigger] acc0[x].validations[y]) != (#[trigger] acc0[x].validations[z]));
            assert forall|x: int, y: int|
                0 <= x < acc0.len() && 0 <= y < acc0[x].validations.len() implies (
            #[trigger] acc0[x].validations[y]) != v by {
                if acc0[x].validations[y] == v {
                    assert(acc_contains_validation(acc0, v));
                }
            }
        }
        match self.find_group(&v.replicas) {
            Some(i) => {
                let mut g = self.accumulating_validations.remove(i);
                g.validations.push(v);
                self.accumulating_validations.insert(i, g);
                proof {
                    lemma_acc_insert_found(acc0, v, i as int);
                    assert(self.accumulating_validations@ =~= old(
                        self,
                    ).accumulating_validations@.update(i as int, g));
                    let gi = GroupModel {
                        replicas: acc0[i as int].replicas,
                        validations: acc0[i as int].validations.push(v),
                    };
                    let acc1 = self.acc_model();
                    assert(acc1 =~= acc0.update(i as int, gi));
                    assert(acc1 =~= acc_insert(acc0, v));
                    assert forall|x: int| 0 <= x < acc1.len() implies (#[trigger] acc1[x]).replicas
                        == acc0[x].replicas by {}
                    assert forall|a: int, b: int, c: int|
                        0 <= a < acc1.len() && 0 <= b < c < acc1[a].validations.len() implies (
                    #[trigger] acc1[a].validations[b]) != (#[trigger] acc1[a].validations[c]) by {
                        if a == i as int {
                            if c == acc1[a].validations.len() - 1 {
                                assert(acc1[a].validations[b] == acc0[a].validations[b]);
                                assert(acc1[a].validations[c] == v);
                                assert(acc0[a].validations[b] != v);
                            } else {
                                assert(acc1[a].validations[b] == acc0[a].validations[b]);
                                assert(acc1[a].validations[c] == acc0[a].validations[c]);
                                assert(acc0[a].validations[b] != acc0[a].validations[c]);
                            }
                        } else {
                            assert(acc1[a] == acc0[a]);
                            assert(acc0[a].validations[b] != acc0[a].validations[c]);
                        }
                    }
                }
            },
            None => {
                let replicas = crate::crypto::clone_key_set(&v.replicas);
                let mut validations: Vec<TransferValidated> = Vec::new();
                validations.push(v);
                self.accumulating_validations.push(GroupValidations { replicas, validations });
                proof {
                    lemma_acc_insert_new(acc0, v);
                    let acc1 = self.acc_model();
                    assert(acc1 =~= acc0.push(
                        GroupModel { replicas: v.replicas, validations: seq![v] },
                    ));
                    assert(acc1 =~= acc_insert(acc0, v));
                    assert forall|a: int, b: int, c: int|
                        0 <= a < acc1.len() && 0 <= b < c < acc1[a].validations.len() implies (
                    #[trigger] acc1[a].validations[b]) != (#[trigger] acc1[a].validations[c]) by {
                        if a < acc0.len() {
                            assert(acc1[a] == acc0[a]);
                            assert(acc0[a].validations[b] != acc0[a].validations[c]);
                        } else {
                            assert(acc1[a].validations.len() == 1);
                        }
                    }
                }
            },
        }
    }

    /// Check that this actor signed the transfer.
    fn verify_is_our_transfer(&self, st: &SignedTransfer) -> (r: bool)
        ensures
            r == actor_sig_ok(self.id, *st),
    {
        match serialize_transfer(&st.transfer) {
            Ok(data) => verify_signature(&self.id, &st.actor_signature, &data),
            Err(_) => false,
        }
    }

    /// Check a validation's replica signature share against the share key at
    /// its index of the validation's replica group.
    fn verify_share_of(&self, v: &TransferValidated) -> (r: bool)
        ensures
            r == share_sig_ok(*v),
    {
        match serialize_signed_transfer(&v.signed_transfer) {
            Ok(data) => verify_share_signature(
                &v.replicas,
                v.replica_signature.index,
                &v.replica_signature.share,
                &data,
            ),
            Err(_) => false,
        }
    }

    /// Check a debit agreement proof: the actor's own signature, and the
    /// aggregated replica signature under the actor's current replica key
    /// set.
    fn verify_debit_proof(&self, p: &DebitAgreementProof) -> (r: bool)
        ensures
            r == debit_proof_ok(self.id, self.replicas, *p),
    {
        if !self.verify_is_our_transfer(&p.signed_transfer) {
            return false;
        }
        match serialize_signed_transfer(&p.signed_transfer) {
            Ok(data) => {
                let pk = public_key_of_set(&self.replicas);
                verify_signature(&pk, &p.debiting_replicas_sig, &data)
            },
            Err(_) => false,
        }
    }

    /// Check a received credit: the remote group must pass the injected
    /// validity predicate, and the proof must verify under the remote group
    /// key the credit names.
    fn verify_credit_proof(&self, c: &ReceivedCredit) -> (r: bool)
        ensures
            r == (self.replica_validator.valid_spec(c.debiting_replicas)
                && credit_proof_sig_ok(*c)),
    {
        if !self.replica_validator.is_valid(c.debiting_replicas) {
            return false;
        }
        match serialize_signed_transfer(&c.debit_proof.signed_transfer) {
            Ok(data) => verify_signature(
                &c.debiting_replicas,
                &c.debit_proof.debiting_replicas_sig,
                &data,
            ),
            Err(_) => false,
        }
    }
}

} // verus!
