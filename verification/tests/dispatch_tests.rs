use tamagotchi::dispatch::{HandleError, MsgInfo, Outcome};
use tamagotchi::ids::{ActorId, ReservationId};
use tamagotchi::state::{Tamagotchi, TmgAction, TmgEvent};
use tamagotchi::vitals::{level_at, HUNGER_PER_BLOCK, MAX_LEVEL};

fn aid(n: u64) -> ActorId {
    ActorId::from_words(n, 0, 0, 0)
}

fn msg_from(source: ActorId, block: u64) -> MsgInfo {
    MsgInfo { source, program: aid(999), block }
}

fn new_pet(name: &str, owner: ActorId, block: u64) -> Tamagotchi {
    Tamagotchi::init(name.as_bytes().to_vec(), msg_from(owner, block)).expect("init failed")
}

#[test]
fn init_then_name_replies_the_name() {
    let owner = aid(1);
    let mut pet = new_pet("Rex", owner, 0);
    let r = pet.handle(&TmgAction::Name, msg_from(owner, 0)).unwrap();
    assert_eq!(r, Outcome::Reply(TmgEvent::Name(String::from("Rex"))));
}

#[test]
fn init_rejects_invalid_utf8_and_empty_names() {
    let owner = aid(1);
    assert!(Tamagotchi::init(vec![0xff, 0xfe], msg_from(owner, 0)).is_none());
    assert!(Tamagotchi::init(vec![], msg_from(owner, 0)).is_none());
    assert!(Tamagotchi::init(vec![b'a'], msg_from(owner, 0)).is_some());
}

#[test]
fn age_is_the_birth_time_at_any_block() {
    let owner = aid(1);
    let mut pet = new_pet("Rex", owner, 100);
    let r = pet.handle(&TmgAction::Age, msg_from(owner, 100)).unwrap();
    assert_eq!(r, Outcome::Reply(TmgEvent::Age(100)));
    let r = pet.handle(&TmgAction::Age, msg_from(owner, 200)).unwrap();
    assert_eq!(r, Outcome::Reply(TmgEvent::Age(100)));
}

#[test]
fn feed_clamps_at_the_ceiling_and_decay_saturates_at_zero() {
    let owner = aid(1);
    let mut pet = new_pet("Rex", owner, 0);
    assert_eq!(pet.fed, MAX_LEVEL);
    let r = pet.handle(&TmgAction::Feed, msg_from(owner, 0)).unwrap();
    assert_eq!(r, Outcome::Reply(TmgEvent::Fed));
    assert_eq!(pet.fed, MAX_LEVEL);
    assert_eq!(level_at(pet.fed, pet.fed_block, 10000, HUNGER_PER_BLOCK), 0);
}

#[test]
fn feed_refills_a_decayed_vital() {
    let owner = aid(1);
    let mut pet = new_pet("Rex", owner, 0);
    // After 5000 blocks fullness has decayed to 5000; feeding adds 1000.
    let r = pet.handle(&TmgAction::Feed, msg_from(owner, 5000)).unwrap();
    assert_eq!(r, Outcome::Reply(TmgEvent::Fed));
    assert_eq!(pet.fed, 6000);
    assert_eq!(pet.fed_block, 5000);
}

#[test]
fn reading_a_vital_later_never_increases_it() {
    let owner = aid(1);
    let pet = new_pet("Rex", owner, 0);
    let early = level_at(pet.fed, pet.fed_block, 100, HUNGER_PER_BLOCK);
    let late = level_at(pet.fed, pet.fed_block, 200, HUNGER_PER_BLOCK);
    assert!(late <= early);
}

#[test]
fn transfer_names_the_new_owner_and_clears_the_operator() {
    let a = aid(1);
    let b = aid(2);
    let mut pet = new_pet("Rex", a, 0);
    pet.handle(&TmgAction::Approve(aid(7)), msg_from(a, 0)).unwrap();
    let r = pet.handle(&TmgAction::Transfer(b), msg_from(a, 1)).unwrap();
    assert_eq!(r, Outcome::Reply(TmgEvent::Transfer(b)));
    assert_eq!(pet.allowed_account, None);
    let r = pet.handle(&TmgAction::Owner, msg_from(aid(50), 2)).unwrap();
    assert_eq!(r, Outcome::Reply(TmgEvent::Owner { owner: b }));
}

#[test]
fn old_owner_loses_authority_after_transfer() {
    let a = aid(1);
    let b = aid(2);
    let c = aid(3);
    let mut pet = new_pet("Rex", a, 0);
    pet.handle(&TmgAction::Transfer(b), msg_from(a, 0)).unwrap();
    let r = pet.handle(&TmgAction::Transfer(c), msg_from(a, 1));
    assert_eq!(r, Err(HandleError::NotAuthorized));
    assert_eq!(pet.owner, b);
}

#[test]
fn operator_may_feed_but_not_transfer() {
    let a = aid(1);
    let op = aid(2);
    let mut pet = new_pet("Rex", a, 0);
    pet.handle(&TmgAction::Approve(op), msg_from(a, 0)).unwrap();
    assert!(pet.handle(&TmgAction::Feed, msg_from(op, 1)).is_ok());
    assert_eq!(
        pet.handle(&TmgAction::Transfer(op), msg_from(op, 1)),
        Err(HandleError::NotAuthorized)
    );
    pet.handle(&TmgAction::RevokeApproval, msg_from(a, 2)).unwrap();
    assert_eq!(
        pet.handle(&TmgAction::Feed, msg_from(op, 3)),
        Err(HandleError::NotAuthorized)
    );
}

#[test]
fn approve_tokens_without_a_token_actor_is_an_error() {
    let a = aid(1);
    let mut pet = new_pet("Rex", a, 0);
    let r = pet
        .handle(&TmgAction::ApproveTokens { account: aid(5), amount: 50 }, msg_from(a, 0))
        .unwrap();
    assert_eq!(r, Outcome::Reply(TmgEvent::ApprovalError));
    assert_eq!(pet.approve_transaction, None);
}

#[test]
fn approval_reuses_the_pending_transaction_id() {
    let a = aid(1);
    let x = aid(5);
    let token = aid(9);
    let mut pet = new_pet("Rex", a, 0);
    pet.handle(&TmgAction::SetFTokenContract(token), msg_from(a, 0)).unwrap();
    let r = pet
        .handle(&TmgAction::ApproveTokens { account: x, amount: 50 }, msg_from(a, 1))
        .unwrap();
    let first_tx = match r {
        Outcome::ApproveCall { target, transaction_id, account, amount } => {
            assert_eq!(target, token);
            assert_eq!(account, x);
            assert_eq!(amount, 50);
            transaction_id
        }
        other => panic!("unexpected outcome: {:?}", other),
    };
    assert_eq!(pet.approve_transaction, Some((first_tx, x, 50)));
    // The token actor never replied; an identical retry reuses the id.
    let r = pet
        .handle(&TmgAction::ApproveTokens { account: x, amount: 50 }, msg_from(a, 2))
        .unwrap();
    match r {
        Outcome::ApproveCall { transaction_id, .. } => assert_eq!(transaction_id, first_tx),
        other => panic!("unexpected outcome: {:?}", other),
    }
    assert_eq!(pet.approve_transaction, Some((first_tx, x, 50)));
}

#[test]
fn fresh_approvals_use_strictly_increasing_transaction_ids() {
    let a = aid(1);
    let token = aid(9);
    let mut pet = new_pet("Rex", a, 0);
    pet.handle(&TmgAction::SetFTokenContract(token), msg_from(a, 0)).unwrap();
    let mut last_tx = None;
    for i in 0..3u64 {
        let r = pet
            .handle(
                &TmgAction::ApproveTokens { account: aid(100 + i), amount: 50 },
                msg_from(a, i),
            )
            .unwrap();
        let ev = pet.resume_approve(true);
        match r {
            Outcome::ApproveCall { transaction_id, account, amount, .. } => {
                if let Some(prev) = last_tx {
                    assert!(transaction_id > prev);
                }
                last_tx = Some(transaction_id);
                assert_eq!(ev, TmgEvent::ApproveTokens { account, amount });
            }
            other => panic!("unexpected outcome: {:?}", other),
        }
    }
}

#[test]
fn failed_approval_keeps_the_pending_descriptor() {
    let a = aid(1);
    let x = aid(5);
    let mut pet = new_pet("Rex", a, 0);
    pet.handle(&TmgAction::SetFTokenContract(aid(9)), msg_from(a, 0)).unwrap();
    pet.handle(&TmgAction::ApproveTokens { account: x, amount: 7 }, msg_from(a, 1))
        .unwrap();
    let pending = pet.approve_transaction;
    let ev = pet.resume_approve(false);
    assert_eq!(ev, TmgEvent::ApprovalError);
    assert_eq!(pet.approve_transaction, pending);
}

#[test]
fn buy_attribute_suspends_toward_the_store() {
    let a = aid(1);
    let store = aid(77);
    let mut pet = new_pet("Rex", a, 0);
    let r = pet
        .handle(&TmgAction::BuyAttribute { store_id: store, attribute_id: 4 }, msg_from(a, 0))
        .unwrap();
    assert_eq!(r, Outcome::PurchaseCall { store_id: store, attribute_id: 4 });
    assert_eq!(Tamagotchi::purchase_event(true, 4), TmgEvent::AttributeBought(4));
    assert_eq!(
        Tamagotchi::purchase_event(false, 4),
        TmgEvent::ErrorDuringPurchase
    );
}

#[test]
fn check_state_reports_the_first_needy_vital() {
    let a = aid(1);
    let program = aid(999);
    let mut pet = new_pet("Rex", a, 0);
    pet.fed = 50;
    pet.rested = 5000;
    pet.entertained = 5000;
    let self_msg = MsgInfo { source: program, program, block: 0 };
    let r = pet.handle(&TmgAction::CheckState, self_msg).unwrap();
    assert_eq!(r, Outcome::Reply(TmgEvent::FeedMe));
    pet.fed = 5000;
    pet.rested = 50;
    let r = pet.handle(&TmgAction::CheckState, self_msg).unwrap();
    assert_eq!(r, Outcome::Reply(TmgEvent::WantToSleep));
    pet.rested = 5000;
    pet.entertained = 50;
    let r = pet.handle(&TmgAction::CheckState, self_msg).unwrap();
    assert_eq!(r, Outcome::Reply(TmgEvent::PlayWithMe));
    pet.entertained = 5000;
    let r = pet.handle(&TmgAction::CheckState, self_msg).unwrap();
    assert_eq!(r, Outcome::NoReply);
}

#[test]
fn check_state_from_outside_is_refused() {
    let a = aid(1);
    let mut pet = new_pet("Rex", a, 0);
    assert_eq!(
        pet.handle(&TmgAction::CheckState, msg_from(a, 0)),
        Err(HandleError::NotAuthorized)
    );
}

#[test]
fn check_state_sees_decayed_values() {
    let a = aid(1);
    let program = aid(999);
    let mut pet = new_pet("Rex", a, 0);
    // Stored fullness is full, but 9950 blocks of hunger leave it at 50.
    let r = pet
        .handle(&TmgAction::CheckState, MsgInfo { source: program, program, block: 9950 })
        .unwrap();
    assert_eq!(r, Outcome::Reply(TmgEvent::FeedMe));
}

#[test]
fn self_pings_are_scheduled_only_for_outside_messages() {
    let program = aid(999);
    assert!(Tamagotchi::schedules_ping(MsgInfo { source: aid(1), program, block: 0 }));
    assert!(!Tamagotchi::schedules_ping(MsgInfo { source: program, program, block: 0 }));
}

#[test]
fn reserve_gas_appends_and_the_signal_handler_pops_in_order() {
    let a = aid(1);
    let mut pet = new_pet("Rex", a, 0);
    let r = pet
        .handle(&TmgAction::ReserveGas { reservation_amount: 10, duration: 5 }, msg_from(a, 0))
        .unwrap();
    assert_eq!(r, Outcome::ReserveCall { reservation_amount: 10, duration: 5 });
    let h1 = ReservationId::from_words(1, 1, 1, 1);
    let h2 = ReservationId::from_words(2, 2, 2, 2);
    assert_eq!(pet.complete_reservation(h1), TmgEvent::GasReserved);
    assert_eq!(pet.complete_reservation(h2), TmgEvent::GasReserved);
    assert_eq!(pet.pop_reservation(), Some(h1));
    assert_eq!(pet.pop_reservation(), Some(h2));
    assert_eq!(pet.pop_reservation(), None);
}

#[test]
fn reserve_gas_needs_the_owner() {
    let a = aid(1);
    let op = aid(2);
    let mut pet = new_pet("Rex", a, 0);
    pet.handle(&TmgAction::Approve(op), msg_from(a, 0)).unwrap();
    assert_eq!(
        pet.handle(
            &TmgAction::ReserveGas { reservation_amount: 10, duration: 5 },
            msg_from(op, 1)
        ),
        Err(HandleError::NotAuthorized)
    );
}
