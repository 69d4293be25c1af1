use tamagotchi::codec::{decode_action, decode_event, encode_action, encode_event, encode_pet};
use tamagotchi::dispatch::MsgInfo;
use tamagotchi::ids::ActorId;
use tamagotchi::state::{Tamagotchi, TmgAction, TmgEvent};

fn aid(n: u64) -> ActorId {
    ActorId::from_words(n, n + 1, n + 2, n + 3)
}

fn action_round_trip(a: TmgAction) {
    let bytes = encode_action(&a);
    assert_eq!(decode_action(&bytes), Some(a));
}

fn event_round_trip(e: TmgEvent) {
    let bytes = encode_event(&e);
    assert_eq!(decode_event(&bytes), Some(e));
}

#[test]
fn every_request_round_trips() {
    action_round_trip(TmgAction::Name);
    action_round_trip(TmgAction::Age);
    action_round_trip(TmgAction::Feed);
    action_round_trip(TmgAction::Play);
    action_round_trip(TmgAction::Sleep);
    action_round_trip(TmgAction::Transfer(aid(5)));
    action_round_trip(TmgAction::Approve(aid(6)));
    action_round_trip(TmgAction::RevokeApproval);
    action_round_trip(TmgAction::ApproveTokens { account: aid(7), amount: u128::MAX });
    action_round_trip(TmgAction::SetFTokenContract(aid(8)));
    action_round_trip(TmgAction::BuyAttribute { store_id: aid(9), attribute_id: 42 });
    action_round_trip(TmgAction::CheckState);
    action_round_trip(TmgAction::ReserveGas { reservation_amount: u64::MAX, duration: 0 });
    action_round_trip(TmgAction::Owner);
}

#[test]
fn every_event_round_trips() {
    event_round_trip(TmgEvent::Name(String::from("Rex")));
    event_round_trip(TmgEvent::Age(100));
    event_round_trip(TmgEvent::Fed);
    event_round_trip(TmgEvent::Entertained);
    event_round_trip(TmgEvent::Slept);
    event_round_trip(TmgEvent::Transfer(aid(5)));
    event_round_trip(TmgEvent::Approve(aid(6)));
    event_round_trip(TmgEvent::RevokeApproval);
    event_round_trip(TmgEvent::ApproveTokens { account: aid(7), amount: 1 });
    event_round_trip(TmgEvent::ApprovalError);
    event_round_trip(TmgEvent::SetFTokenContract);
    event_round_trip(TmgEvent::AttributeBought(4));
    event_round_trip(TmgEvent::CompletePrevPurchase(9));
    event_round_trip(TmgEvent::ErrorDuringPurchase);
    event_round_trip(TmgEvent::FeedMe);
    event_round_trip(TmgEvent::PlayWithMe);
    event_round_trip(TmgEvent::WantToSleep);
    event_round_trip(TmgEvent::MakeReservation);
    event_round_trip(TmgEvent::GasReserved);
    event_round_trip(TmgEvent::Owner { owner: aid(1) });
}

#[test]
fn names_of_every_compact_length_form_round_trip() {
    // 63 and 64 bytes sit on the one-byte / two-byte boundary of the
    // compact length prefix; longer forms are exercised well below the
    // four-byte boundary to keep the test fast.
    for len in [1usize, 63, 64, 100, 16383, 16384] {
        let name: String = "a".repeat(len);
        event_round_trip(TmgEvent::Name(name));
    }
}

#[test]
fn multibyte_text_round_trips() {
    event_round_trip(TmgEvent::Name(String::from("R\u{e9}x \u{1F436}")));
}

#[test]
fn encodings_match_the_wire_layout() {
    // A unit variant is its discriminant alone.
    assert_eq!(encode_action(&TmgAction::Feed), vec![2]);
    assert_eq!(encode_event(&TmgEvent::GasReserved), vec![18]);
    // An identity is its 32 bytes, little-endian words, lowest first.
    let id = ActorId::from_words(1, 0, 0, 0x0100000000000000);
    let mut expected = vec![5u8];
    expected.extend_from_slice(&[1, 0, 0, 0, 0, 0, 0, 0]);
    expected.extend_from_slice(&[0; 16]);
    expected.extend_from_slice(&[0, 0, 0, 0, 0, 0, 0, 1]);
    assert_eq!(encode_action(&TmgAction::Transfer(id)), expected);
    // A short name: discriminant, one compact length byte (3 << 2), text.
    assert_eq!(
        encode_event(&TmgEvent::Name(String::from("Rex"))),
        vec![0, 12, b'R', b'e', b'x']
    );
    // Fixed-width fields are little-endian in declared order.
    assert_eq!(
        encode_action(&TmgAction::ReserveGas { reservation_amount: 258, duration: 7 }),
        vec![12, 2, 1, 0, 0, 0, 0, 0, 0, 7, 0, 0, 0]
    );
}

#[test]
fn state_record_encoding_follows_the_declared_field_order() {
    let owner = ActorId::from_words(1, 0, 0, 0);
    let msg = MsgInfo { source: owner, program: aid(999), block: 7 };
    let pet = Tamagotchi::init(b"Rex".to_vec(), msg).unwrap();
    let mut expected: Vec<u8> = vec![12, b'R', b'e', b'x'];
    expected.extend_from_slice(&7u64.to_le_bytes()); // date_of_birth
    expected.extend_from_slice(&[1, 0, 0, 0, 0, 0, 0, 0]); // owner
    expected.extend_from_slice(&[0; 24]);
    let vitals: [u64; 3] = [10000, 10000, 10000];
    for level in vitals {
        expected.extend_from_slice(&level.to_le_bytes());
        expected.extend_from_slice(&7u64.to_le_bytes());
    }
    expected.push(0); // no operator
    expected.extend_from_slice(&[0; 32]); // null token actor
    expected.extend_from_slice(&0u64.to_le_bytes()); // transaction counter
    expected.push(0); // no pending approval
    expected.push(0); // no reservations
    assert_eq!(encode_pet(&pet), expected);
}

#[test]
fn malformed_bytes_are_rejected() {
    // Empty input, unknown discriminant, wrong length.
    assert_eq!(decode_action(&vec![]), None);
    assert_eq!(decode_action(&vec![14]), None);
    assert_eq!(decode_action(&vec![5, 1, 2, 3]), None);
    assert_eq!(decode_action(&vec![2, 0]), None);
    assert_eq!(decode_event(&vec![20]), None);
    assert_eq!(decode_event(&vec![1, 1, 2, 3]), None);
    // A name whose length prefix overruns the payload.
    assert_eq!(decode_event(&vec![0, 12, b'R', b'e']), None);
    // Trailing garbage after a complete name.
    assert_eq!(decode_event(&vec![0, 12, b'R', b'e', b'x', 0]), None);
    // A non-canonical compact length: two-byte form for a small value.
    assert_eq!(decode_event(&vec![0, 13, 0, b'R', b'e', b'x']), None);
    // Invalid UTF-8 in a name.
    assert_eq!(decode_event(&vec![0, 8, 0xff, 0xfe]), None);
}
