use safe_transfers::{
    Account, ActorEvent, DebitAgreementProof, Dot, Error, ReplicaEvent, SignatureShare,
    SignedTransfer, Transfer, TransferActor, TransferInitiated, TransferRegistrationSent,
    TransferValidated, Validator,
};

fn get_random_pk() -> safe_nd::PublicKey {
    safe_nd::PublicKey::from(threshold_crypto::SecretKey::random().public_key())
}

/// The canonical serialisation the library signs and verifies: bincode over
/// the corresponding safe_nd value.
fn nd_transfer(t: &Transfer) -> safe_nd::Transfer {
    safe_nd::Transfer {
        id: crdts::Dot::new(t.id.actor, t.id.counter),
        to: t.to,
        amount: safe_nd::Money::from_nano(t.amount),
    }
}

fn nd_signed_transfer(st: &SignedTransfer) -> safe_nd::SignedTransfer {
    safe_nd::SignedTransfer {
        transfer: nd_transfer(&st.transfer),
        actor_signature: st.actor_signature.clone(),
    }
}

fn serialize_signed(st: &SignedTransfer) -> Vec<u8> {
    bincode::serialize(&nd_signed_transfer(st)).unwrap()
}

fn get_actor_and_replicas_sk_set(
    amount: u64,
) -> (TransferActor<Validator>, threshold_crypto::SecretKeySet) {
    let mut rng = rand::thread_rng();
    let client_id = safe_nd::ClientFullId::new_ed25519(&mut rng);
    let client_pubkey = *client_id.public_key();
    let bls_secret_key = threshold_crypto::SecretKeySet::random(1, &mut rng);
    let replicas_id = bls_secret_key.public_keys();
    let sender = Dot { actor: get_random_pk(), counter: 0 };
    let transfer = Transfer { id: sender, to: client_pubkey, amount };
    let mut account = Account::new(transfer.to);
    account.append(transfer);
    let actor = TransferActor::from_snapshot(account, client_id, replicas_id, Validator);
    (actor, bls_secret_key)
}

fn get_debit(actor: &TransferActor<Validator>) -> TransferInitiated {
    actor.transfer(10, get_random_pk()).unwrap()
}

/// Validated transfers from seven replicas of the sk_set group.
fn get_transfer_validation_vec(
    transfer: TransferInitiated,
    sk_set: &threshold_crypto::SecretKeySet,
) -> Vec<TransferValidated> {
    let signed_transfer = transfer.signed_transfer.clone();
    let serialized = serialize_signed(&signed_transfer);
    let pk_set = sk_set.public_keys();
    let mut validated_transfers = vec![];
    for i in 0..7 {
        let share = sk_set.secret_key_share(i).sign(&serialized);
        assert!(pk_set.public_key_share(i).verify(&share, &serialized));
        validated_transfers.push(TransferValidated {
            signed_transfer: signed_transfer.clone(),
            replica_signature: SignatureShare { index: i, share },
            replicas: pk_set.clone(),
        });
    }
    validated_transfers
}

fn make_debit_proof(
    signed_transfer: SignedTransfer,
    sk_set: &threshold_crypto::SecretKeySet,
) -> DebitAgreementProof {
    let serialized = serialize_signed(&signed_transfer);
    let pk_set = sk_set.public_keys();
    let sig_shares: std::collections::BTreeMap<usize, threshold_crypto::SignatureShare> = (0..4)
        .map(|i| (i, sk_set.secret_key_share(i).sign(&serialized)))
        .collect();
    for (i, sig_share) in &sig_shares {
        assert!(pk_set.public_key_share(*i).verify(sig_share, &serialized));
    }
    let sig = pk_set
        .combine_signatures(&sig_shares)
        .expect("not enough shares");
    assert!(pk_set.public_key().verify(&sig, &serialized));
    DebitAgreementProof {
        signed_transfer,
        debiting_replicas_sig: safe_nd::Signature::Bls(sig),
        replica_key: pk_set,
    }
}

fn get_transfer_registration_sent(
    transfer: TransferInitiated,
    sk_set: &threshold_crypto::SecretKeySet,
) -> TransferRegistrationSent {
    TransferRegistrationSent { debit_proof: make_debit_proof(transfer.signed_transfer, sk_set) }
}

#[test]
fn creates_actor() {
    let (_actor, _sk_set) = get_actor_and_replicas_sk_set(10);
}

#[test]
fn initial_state_is_applied() {
    let initial_amount = 10;
    let (actor, _sk_set) = get_actor_and_replicas_sk_set(initial_amount);
    let credits = actor.credits_since(0);
    let debits = actor.debits_since(0);
    assert!(debits.len() == 0);
    assert!(credits.len() == 1);
    assert!(credits[0].amount == initial_amount);
    assert!(actor.balance() == initial_amount);
}

#[test]
fn initiates_transfers() {
    let (actor, _sk_set) = get_actor_and_replicas_sk_set(10);
    let debit = get_debit(&actor);
    let mut actor = actor;
    actor.apply(ActorEvent::TransferInitiated(debit))
}

#[test]
fn can_apply_completed_transfer() {
    let (actor, sk_set) = get_actor_and_replicas_sk_set(15);
    let debit = get_debit(&actor);
    let mut actor = actor;
    actor.apply(ActorEvent::TransferInitiated(debit.clone()));
    let transfer_event = get_transfer_registration_sent(debit, &sk_set);
    actor.apply(ActorEvent::TransferRegistrationSent(transfer_event));
    assert_eq!(5, actor.balance())
}

#[test]
fn can_apply_completed_transfers_in_succession() {
    let (actor, sk_set) = get_actor_and_replicas_sk_set(22);
    let debit = get_debit(&actor);
    let mut actor = actor;
    actor.apply(ActorEvent::TransferInitiated(debit.clone()));
    let transfer_event = get_transfer_registration_sent(debit, &sk_set);
    actor.apply(ActorEvent::TransferRegistrationSent(transfer_event));

    assert_eq!(12, actor.balance()); // 22 - 10

    let debit2 = get_debit(&actor);
    actor.apply(ActorEvent::TransferInitiated(debit2.clone()));
    let transfer_event = get_transfer_registration_sent(debit2, &sk_set);
    actor.apply(ActorEvent::TransferRegistrationSent(transfer_event));

    assert_eq!(2, actor.balance()); // 22 - 10 - 10
}

#[test]
fn can_return_proof_for_validated_transfers() {
    let (actor, sk_set) = get_actor_and_replicas_sk_set(22);
    let debit = get_debit(&actor);
    let mut actor = actor;

    let validations = get_transfer_validation_vec(debit, &sk_set);

    // 7 elders and validations
    for i in 0..7 {
        let transfer_validation = actor.receive(validations[i].clone()).unwrap();

        if i < 1
        // threshold is 1
        {
            assert!(transfer_validation.proof.is_none());
        } else {
            assert!(transfer_validation.proof.is_some());
        }

        actor.apply(ActorEvent::TransferValidationReceived(transfer_validation));
    }
}

#[test]
fn fresh_actor_balance_zero() {
    let mut rng = rand::thread_rng();
    let client_id = safe_nd::ClientFullId::new_ed25519(&mut rng);
    let sk_set = threshold_crypto::SecretKeySet::random(1, &mut rng);
    let actor = TransferActor::new(client_id, sk_set.public_keys(), Validator);
    assert_eq!(0, actor.balance());
    assert!(actor.credits_since(0).is_empty());
    assert!(actor.debits_since(0).is_empty());
    assert_eq!(0, actor.account.next_debit());
    assert_eq!(0, actor.next_debit_version);
}

#[test]
fn single_debit_happy_path() {
    let (actor, sk_set) = get_actor_and_replicas_sk_set(15);
    let mut actor = actor;
    let to = get_random_pk();
    let initiated = actor.transfer(10, to).unwrap();
    assert_eq!(0, initiated.signed_transfer.transfer.id.counter);
    actor.apply(ActorEvent::TransferInitiated(initiated.clone()));

    let validations = get_transfer_validation_vec(initiated, &sk_set);
    let first = actor.receive(validations[0].clone()).unwrap();
    assert!(first.proof.is_none());
    actor.apply(ActorEvent::TransferValidationReceived(first));
    let second = actor.receive(validations[1].clone()).unwrap();
    let proof = second.proof.clone().expect("quorum should emit a proof");
    actor.apply(ActorEvent::TransferValidationReceived(second));

    // the aggregated signature verifies under the group's master key
    let serialized = serialize_signed(&proof.signed_transfer);
    let agg = match &proof.debiting_replicas_sig {
        safe_nd::Signature::Bls(s) => s.clone(),
        _ => panic!("expected a BLS signature"),
    };
    assert!(sk_set.public_keys().public_key().verify(&agg, &serialized));

    let registered = actor.register(proof).unwrap();
    actor.apply(ActorEvent::TransferRegistrationSent(registered));

    assert_eq!(5, actor.balance());
    assert_eq!(0, actor.accumulating_validations.len());
    assert_eq!(1, actor.account.next_debit());
    assert_eq!(1, actor.next_debit_version);
}

#[test]
fn consecutive_debits() {
    let (actor, sk_set) = get_actor_and_replicas_sk_set(22);
    let mut actor = actor;
    for round in 0..2u64 {
        let initiated = actor.transfer(10, get_random_pk()).unwrap();
        assert_eq!(round, initiated.signed_transfer.transfer.id.counter);
        actor.apply(ActorEvent::TransferInitiated(initiated.clone()));
        let validations = get_transfer_validation_vec(initiated, &sk_set);
        let first = actor.receive(validations[0].clone()).unwrap();
        assert!(first.proof.is_none());
        actor.apply(ActorEvent::TransferValidationReceived(first));
        let second = actor.receive(validations[1].clone()).unwrap();
        let proof = second.proof.clone().unwrap();
        actor.apply(ActorEvent::TransferValidationReceived(second));
        let registered = actor.register(proof).unwrap();
        actor.apply(ActorEvent::TransferRegistrationSent(registered));
    }
    assert_eq!(2, actor.balance());
}

#[test]
fn self_transfer_rejected() {
    let (actor, _sk_set) = get_actor_and_replicas_sk_set(10);
    let result = actor.transfer(1, actor.id());
    assert!(matches!(result, Err(Error::SameSenderAndRecipient)));
}

#[test]
fn overspend_rejected() {
    let (actor, _sk_set) = get_actor_and_replicas_sk_set(5);
    let result = actor.transfer(10, get_random_pk());
    assert!(matches!(result, Err(Error::InsufficientBalance)));
    assert_eq!(5, actor.balance());
}

#[test]
fn pending_debit_rejected() {
    let (actor, _sk_set) = get_actor_and_replicas_sk_set(30);
    let mut actor = actor;
    let initiated = actor.transfer(10, get_random_pk()).unwrap();
    actor.apply(ActorEvent::TransferInitiated(initiated));
    let result = actor.transfer(10, get_random_pk());
    assert!(matches!(result, Err(Error::PendingDebitNotCompleted)));
}

/// A validation signed by the actor, for a transfer with the given counter.
fn craft_validation(
    actor: &TransferActor<Validator>,
    sk_set: &threshold_crypto::SecretKeySet,
    counter: u64,
    share_index: usize,
) -> TransferValidated {
    let transfer = Transfer {
        id: Dot { actor: actor.id(), counter },
        to: get_random_pk(),
        amount: 1,
    };
    let transfer_ser = bincode::serialize(&nd_transfer(&transfer)).unwrap();
    let actor_signature = actor.client_id.sign(&transfer_ser);
    let signed_transfer = SignedTransfer { transfer, actor_signature };
    let serialized = serialize_signed(&signed_transfer);
    let share = sk_set.secret_key_share(share_index).sign(&serialized);
    TransferValidated {
        signed_transfer,
        replica_signature: SignatureShare { index: share_index, share },
        replicas: sk_set.public_keys(),
    }
}

#[test]
fn out_of_order_validation_rejected() {
    let (actor, sk_set) = get_actor_and_replicas_sk_set(15);
    let mut actor = actor;
    let initiated = actor.transfer(10, get_random_pk()).unwrap();

    // a validation for counter 1 while the account expects counter 0
    let early = craft_validation(&actor, &sk_set, 1, 0);
    let result = actor.receive(early);
    assert!(matches!(result, Err(Error::OutOfOrderValidation)));

    actor.apply(ActorEvent::TransferInitiated(initiated.clone()));
    let validations = get_transfer_validation_vec(initiated, &sk_set);
    let received = actor.receive(validations[0].clone());
    assert!(received.is_ok());
}

#[test]
fn invalid_signature_rejected() {
    let (actor, sk_set) = get_actor_and_replicas_sk_set(15);
    let initiated = get_debit(&actor);
    let mut validation = get_transfer_validation_vec(initiated, &sk_set)
        .into_iter()
        .next()
        .unwrap();
    // replace the actor signature with one by a stranger
    let mut rng = rand::thread_rng();
    let stranger = safe_nd::ClientFullId::new_ed25519(&mut rng);
    let transfer_ser =
        bincode::serialize(&nd_transfer(&validation.signed_transfer.transfer)).unwrap();
    validation.signed_transfer.actor_signature = stranger.sign(&transfer_ser);
    let result = actor.receive(validation);
    assert!(matches!(result, Err(Error::InvalidSignature)));
}

#[test]
fn not_intended_for_this_actor_rejected() {
    let (actor, sk_set) = get_actor_and_replicas_sk_set(15);
    // a transfer debiting some other key, but signed by this actor
    let transfer = Transfer {
        id: Dot { actor: get_random_pk(), counter: 0 },
        to: get_random_pk(),
        amount: 1,
    };
    let transfer_ser = bincode::serialize(&nd_transfer(&transfer)).unwrap();
    let actor_signature = actor.client_id.sign(&transfer_ser);
    let signed_transfer = SignedTransfer { transfer, actor_signature };
    let serialized = serialize_signed(&signed_transfer);
    let share = sk_set.secret_key_share(0).sign(&serialized);
    let validation = TransferValidated {
        signed_transfer,
        replica_signature: SignatureShare { index: 0, share },
        replicas: sk_set.public_keys(),
    };
    let result = actor.receive(validation);
    assert!(matches!(result, Err(Error::NotIntendedForThisActor)));
}

#[test]
fn already_received_validation_rejected() {
    let (actor, sk_set) = get_actor_and_replicas_sk_set(15);
    let mut actor = actor;
    let initiated = actor.transfer(10, get_random_pk()).unwrap();
    actor.apply(ActorEvent::TransferInitiated(initiated.clone()));
    let validations = get_transfer_validation_vec(initiated, &sk_set);
    let received = actor.receive(validations[0].clone()).unwrap();
    actor.apply(ActorEvent::TransferValidationReceived(received));
    let again = actor.receive(validations[0].clone());
    assert!(matches!(again, Err(Error::AlreadyReceivedValidation)));
}

#[test]
fn non_sequential_registration_rejected() {
    let (actor, sk_set) = get_actor_and_replicas_sk_set(15);
    let mut actor = actor;
    let initiated = actor.transfer(10, get_random_pk()).unwrap();
    actor.apply(ActorEvent::TransferInitiated(initiated.clone()));
    let registered = get_transfer_registration_sent(initiated, &sk_set);
    let proof = registered.debit_proof.clone();
    actor.apply(ActorEvent::TransferRegistrationSent(registered));
    // the same debit again: its counter is no longer the next one
    let result = actor.register(proof);
    assert!(matches!(result, Err(Error::NonSequentialRegistration)));
}

#[test]
fn register_foreign_debit_rejected() {
    let (actor, sk_set) = get_actor_and_replicas_sk_set(15);
    // a debit of some other account, signed by this actor and its replicas
    let transfer = Transfer {
        id: Dot { actor: get_random_pk(), counter: 0 },
        to: get_random_pk(),
        amount: 1,
    };
    let transfer_ser = bincode::serialize(&nd_transfer(&transfer)).unwrap();
    let actor_signature = actor.client_id.sign(&transfer_ser);
    let signed_transfer = SignedTransfer { transfer, actor_signature };
    let proof = make_debit_proof(signed_transfer, &sk_set);
    let result = actor.register(proof);
    assert!(matches!(result, Err(Error::InvalidOperation)));
}

#[test]
fn nothing_to_sync() {
    let (actor, _sk_set) = get_actor_and_replicas_sk_set(10);
    let result = actor.synch(vec![]);
    assert!(matches!(result, Err(Error::NothingToSync)));
}

#[test]
fn cross_group_transfer_via_synch() {
    // sender and recipient live under different replica groups
    let (sender, sender_sk_set) = get_actor_and_replicas_sk_set(100);
    let (recipient, _recipient_sk_set) = get_actor_and_replicas_sk_set(10);
    let mut sender = sender;
    let mut recipient = recipient;

    let initiated = sender.transfer(100, recipient.id()).unwrap();
    sender.apply(ActorEvent::TransferInitiated(initiated.clone()));
    let validations = get_transfer_validation_vec(initiated, &sender_sk_set);
    let first = sender.receive(validations[0].clone()).unwrap();
    sender.apply(ActorEvent::TransferValidationReceived(first));
    let second = sender.receive(validations[1].clone()).unwrap();
    let proof = second.proof.clone().unwrap();
    sender.apply(ActorEvent::TransferValidationReceived(second));
    let registered = sender.register(proof.clone()).unwrap();
    sender.apply(ActorEvent::TransferRegistrationSent(registered));
    assert_eq!(0, sender.balance());

    // the sender's replicas propagate the certified debit to the
    // recipient's replicas, which hand it to the recipient actor
    let propagated = ReplicaEvent::TransferPropagated {
        debit_proof: proof.clone(),
        debiting_replicas: safe_nd::PublicKey::Bls(sender_sk_set.public_keys().public_key()),
    };
    let duplicate = ReplicaEvent::TransferPropagated {
        debit_proof: proof,
        debiting_replicas: safe_nd::PublicKey::Bls(sender_sk_set.public_keys().public_key()),
    };
    let synched = recipient.synch(vec![propagated, duplicate]).unwrap();
    assert_eq!(1, synched.credits.len());
    assert_eq!(0, synched.debits.len());
    recipient.apply(ActorEvent::TransfersSynched(synched));
    assert_eq!(110, recipient.balance());
}

#[test]
fn synch_debits_dense_prefix() {
    // another instance of this same actor registered debits 0 and 2; only
    // the dense run from the next expected counter is accepted
    let (actor, sk_set) = get_actor_and_replicas_sk_set(50);
    let mut actor = actor;
    let mut events = vec![];
    for counter in [0u64, 2u64] {
        let transfer = Transfer {
            id: Dot { actor: actor.id(), counter },
            to: get_random_pk(),
            amount: 10,
        };
        let transfer_ser = bincode::serialize(&nd_transfer(&transfer)).unwrap();
        let actor_signature = actor.client_id.sign(&transfer_ser);
        let signed_transfer = SignedTransfer { transfer, actor_signature };
        events.push(ReplicaEvent::TransferRegistered {
            debit_proof: make_debit_proof(signed_transfer, &sk_set),
        });
    }
    let synched = actor.synch(events).unwrap();
    assert_eq!(0, synched.credits.len());
    assert_eq!(1, synched.debits.len());
    assert_eq!(0, synched.debits[0].signed_transfer.transfer.id.counter);
    actor.apply(ActorEvent::TransfersSynched(synched));
    assert_eq!(40, actor.balance());
    assert_eq!(1, actor.account.next_debit());
    assert_eq!(1, actor.next_debit_version);
}

#[test]
fn replaying_history_rebuilds_state() {
    let (actor, sk_set) = get_actor_and_replicas_sk_set(15);
    let initial_credit = actor.credits_since(0)[0];
    let client_id = actor.client_id.clone();
    let replicas = sk_set.public_keys();
    let mut actor = actor;

    let initiated = actor.transfer(10, get_random_pk()).unwrap();
    let validations = get_transfer_validation_vec(initiated.clone(), &sk_set);
    actor.apply(ActorEvent::TransferInitiated(initiated.clone()));
    let first = actor.receive(validations[0].clone()).unwrap();
    actor.apply(ActorEvent::TransferValidationReceived(first.clone()));
    let second = actor.receive(validations[1].clone()).unwrap();
    let proof = second.proof.clone().unwrap();
    actor.apply(ActorEvent::TransferValidationReceived(second.clone()));
    let registered = actor.register(proof).unwrap();
    actor.apply(ActorEvent::TransferRegistrationSent(registered.clone()));

    // replay the full history against a fresh instance
    let mut account = Account::new(*client_id.public_key());
    account.append(initial_credit);
    let mut fresh = TransferActor::from_snapshot(account, client_id, replicas, Validator);
    fresh.apply(ActorEvent::TransferInitiated(initiated));
    fresh.apply(ActorEvent::TransferValidationReceived(first));
    fresh.apply(ActorEvent::TransferValidationReceived(second));
    fresh.apply(ActorEvent::TransferRegistrationSent(registered));

    assert_eq!(actor.balance(), fresh.balance());
    assert_eq!(actor.next_debit_version, fresh.next_debit_version);
    assert_eq!(actor.account.next_debit(), fresh.account.next_debit());
    assert_eq!(actor.credits_since(0).len(), fresh.credits_since(0).len());
    assert_eq!(
        actor.accumulating_validations.len(),
        fresh.accumulating_validations.len()
    );
}

#[test]
fn commands_are_pure() {
    let (actor, sk_set) = get_actor_and_replicas_sk_set(15);
    let to = get_random_pk();
    let a = actor.transfer(10, to).unwrap();
    let b = actor.transfer(10, to).unwrap();
    assert!(a.signed_transfer == b.signed_transfer);

    let initiated = actor.transfer(10, get_random_pk()).unwrap();
    let validations = get_transfer_validation_vec(initiated, &sk_set);
    let r1 = actor.receive(validations[0].clone()).unwrap();
    let r2 = actor.receive(validations[0].clone()).unwrap();
    assert!(r1.validation == r2.validation);
    assert!(r1.proof.is_none() && r2.proof.is_none());
}

#[test]
fn invalid_share_rejected() {
    let (actor, sk_set) = get_actor_and_replicas_sk_set(15);
    let initiated = get_debit(&actor);
    let mut validation = get_transfer_validation_vec(initiated, &sk_set)
        .into_iter()
        .next()
        .unwrap();
    // the share was produced by replica 0; claiming index 3 must fail
    validation.replica_signature.index = 3;
    let result = actor.receive(validation);
    assert!(matches!(result, Err(Error::InvalidSignature)));
}

#[test]
fn quorum_runs_against_largest_group() {
    // while one group holds more validations, a smaller group reaching its
    // threshold does not emit a proof
    let (actor, group_a) = get_actor_and_replicas_sk_set(15);
    let mut rng = rand::thread_rng();
    let group_b = threshold_crypto::SecretKeySet::random(1, &mut rng);
    let mut actor = actor;
    let initiated = actor.transfer(10, get_random_pk()).unwrap();
    actor.apply(ActorEvent::TransferInitiated(initiated.clone()));

    let signed = initiated.signed_transfer.clone();
    let serialized = serialize_signed(&signed);
    let validation_of = |group: &threshold_crypto::SecretKeySet, i: usize| TransferValidated {
        signed_transfer: signed.clone(),
        replica_signature: SignatureShare {
            index: i,
            share: group.secret_key_share(i).sign(&serialized),
        },
        replicas: group.public_keys(),
    };

    // two validations from group A: the second reaches A's quorum
    let a0 = actor.receive(validation_of(&group_a, 0)).unwrap();
    assert!(a0.proof.is_none());
    actor.apply(ActorEvent::TransferValidationReceived(a0));
    let a1 = actor.receive(validation_of(&group_a, 1)).unwrap();
    assert!(a1.proof.is_some());
    actor.apply(ActorEvent::TransferValidationReceived(a1));

    // group B now accumulates, but group A stays larger: no proof for B
    let b0 = actor.receive(validation_of(&group_b, 0)).unwrap();
    assert!(b0.proof.is_none());
    actor.apply(ActorEvent::TransferValidationReceived(b0));
    let b1 = actor.receive(validation_of(&group_b, 1)).unwrap();
    assert!(b1.proof.is_none());
    actor.apply(ActorEvent::TransferValidationReceived(b1));

    // group A itself still reaches the quorum
    let a2 = actor.receive(validation_of(&group_a, 2)).unwrap();
    assert!(a2.proof.is_some());
}
