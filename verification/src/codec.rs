//! The wire codec: canonical binary encodings of requests and events.
//!
//! Values travel as tagged unions: one discriminant byte in declaration
//! order, then the fields in declared order. Identities and reservation
//! handles are 32 raw bytes, integers are fixed-width little-endian, and
//! text is UTF-8 prefixed with its byte length as a compact-encoded `u32`
//! (1, 2, 4 or 5 bytes, the low two bits of the first byte giving the
//! form, every value in its shortest form).

use crate::ids::{ActorId, ReservationId};
use crate::state::{Tamagotchi, TmgAction, TmgEvent};
use vstd::arithmetic::div_mod::{
    lemma_div_denominator, lemma_fundamental_div_mod, lemma_fundamental_div_mod_converse,
    lemma_mod_multiples_vanish,
};
use vstd::bytes::{
    lemma_auto_spec_u128_to_from_le_bytes, lemma_auto_spec_u32_to_from_le_bytes,
    lemma_auto_spec_u64_to_from_le_bytes, spec_u128_to_le_bytes, spec_u32_to_le_bytes,
    spec_u64_to_le_bytes, u128_from_le_bytes, u128_to_le_bytes, u32_from_le_bytes, u32_to_le_bytes,
    u64_from_le_bytes, u64_to_le_bytes,
};
use vstd::prelude::*;
use vstd::slice::{slice_subrange, slice_to_vec};
use vstd::string::StrSliceExecFns;
use vstd::utf8::{
    decode_utf8, decode_utf8_encode_utf8, encode_utf8, encode_utf8_decode_utf8,
    encode_utf8_valid_utf8, valid_utf8,
};

verus! {

/// Relies on `String::from_utf8`: it succeeds exactly on valid UTF-8 input
/// and returns the text those bytes encode.
#[verifier::external_body]
pub(crate) fn string_from_utf8(bytes: Vec<u8>) -> (r: Option<String>)
    ensures
        r is Some <==> valid_utf8(bytes@),
        r matches Some(s) ==> s@ == decode_utf8(bytes@),
{
    String::from_utf8(bytes).ok()
}

/// The 32-byte encoding of an identity: its four words, little-endian,
/// lowest first.
pub open spec fn spec_encode_id(id: ActorId) -> Seq<u8> {
    spec_u64_to_le_bytes(id.w0) + spec_u64_to_le_bytes(id.w1) + spec_u64_to_le_bytes(id.w2)
        + spec_u64_to_le_bytes(id.w3)
}

/// The compact encoding of a `u32`: the low two bits of the first byte
/// select the form (one byte, two bytes, four bytes, or a marker byte plus
/// four payload bytes), and the remaining bits carry the value.
pub open spec fn spec_compact_u32(v: u32) -> Seq<u8> {
    if v < 64 {
        seq![(v * 4) as u8]
    } else if v < 16384 {
        seq![((v * 4 + 1) % 256) as u8, ((v * 4 + 1) / 256) as u8]
    } else if v < 1073741824 {
        seq![
            ((v * 4 + 2) % 256) as u8,
            (((v * 4 + 2) / 256) % 256) as u8,
            (((v * 4 + 2) / 65536) % 256) as u8,
            ((v * 4 + 2) / 16777216) as u8,
        ]
    } else {
        seq![3u8] + spec_u32_to_le_bytes(v)
    }
}

/// The length-prefixed encoding of text: the byte length of its UTF-8
/// form, compact, then those bytes.
pub open spec fn spec_encode_text(s: Seq<char>) -> Seq<u8> {
    spec_compact_u32(encode_utf8(s).len() as u32) + encode_utf8(s)
}

/// The discriminant byte of a request.
pub open spec fn spec_action_tag(a: TmgAction) -> u8 {
    match a {
        TmgAction::Name => 0,
        TmgAction::Age => 1,
        TmgAction::Feed => 2,
        TmgAction::Play => 3,
        TmgAction::Sleep => 4,
        TmgAction::Transfer(_) => 5,
        TmgAction::Approve(_) => 6,
        TmgAction::RevokeApproval => 7,
        TmgAction::ApproveTokens { .. } => 8,
        TmgAction::SetFTokenContract(_) => 9,
        TmgAction::BuyAttribute { .. } => 10,
        TmgAction::CheckState => 11,
        TmgAction::ReserveGas { .. } => 12,
        TmgAction::Owner => 13,
    }
}

/// The canonical encoding of a request.
pub open spec fn spec_encode_action(a: TmgAction) -> Seq<u8> {
    match a {
        TmgAction::Transfer(id) => seq![5u8] + spec_encode_id(id),
        TmgAction::Approve(id) => seq![6u8] + spec_encode_id(id),
        TmgAction::ApproveTokens { account, amount } => seq![8u8] + spec_encode_id(account)
            + spec_u128_to_le_bytes(amount),
        TmgAction::SetFTokenContract(id) => seq![9u8] + spec_encode_id(id),
        TmgAction::BuyAttribute { store_id, attribute_id } => seq![10u8] + spec_encode_id(store_id)
            + spec_u32_to_le_bytes(attribute_id),
        TmgAction::ReserveGas { reservation_amount, duration } => seq![12u8]
            + spec_u64_to_le_bytes(reservation_amount) + spec_u32_to_le_bytes(duration),
        _ => seq![spec_action_tag(a)],
    }
}

/// The discriminant byte of an event.
pub open spec fn spec_event_tag(e: TmgEvent) -> u8 {
    match e {
        TmgEvent::Name(_) => 0,
        TmgEvent::Age(_) => 1,
        TmgEvent::Fed => 2,
        TmgEvent::Entertained => 3,
        TmgEvent::Slept => 4,
        TmgEvent::Transfer(_) => 5,
        TmgEvent::Approve(_) => 6,
        TmgEvent::RevokeApproval => 7,
        TmgEvent::ApproveTokens { .. } => 8,
        TmgEvent::ApprovalError => 9,
        TmgEvent::SetFTokenContract => 10,
        TmgEvent::AttributeBought(_) => 11,
        TmgEvent::CompletePrevPurchase(_) => 12,
        TmgEvent::ErrorDuringPurchase => 13,
        TmgEvent::FeedMe => 14,
        TmgEvent::PlayWithMe => 15,
        TmgEvent::WantToSleep => 16,
        TmgEvent::MakeReservation => 17,
        TmgEvent::GasReserved => 18,
        TmgEvent::Owner { .. } => 19,
    }
}

/// An event whose encoding exists: a name's UTF-8 form must fit the
/// compact `u32` length prefix.
pub open spec fn spec_event_encodable(e: TmgEvent) -> bool {
    e matches TmgEvent::Name(s) ==> encode_utf8(s@).len() <= u32::MAX
}

/// The canonical encoding of an event.
pub open spec fn spec_encode_event(e: TmgEvent) -> Seq<u8> {
    match e {
        TmgEvent::Name(s) => seq![0u8] + spec_encode_text(s@),
        TmgEvent::Age(a) => seq![1u8] + spec_u64_to_le_bytes(a),
        TmgEvent::Transfer(id) => seq![5u8] + spec_encode_id(id),
        TmgEvent::Approve(id) => seq![6u8] + spec_encode_id(id),
        TmgEvent::ApproveTokens { account, amount } => seq![8u8] + spec_encode_id(account)
            + spec_u128_to_le_bytes(amount),
        TmgEvent::AttributeBought(id) => seq![11u8] + spec_u32_to_le_bytes(id),
        TmgEvent::CompletePrevPurchase(id) => seq![12u8] + spec_u32_to_le_bytes(id),
        TmgEvent::Owner { owner } => seq![19u8] + spec_encode_id(owner),
        _ => seq![spec_event_tag(e)],
    }
}

/// Appends the little-endian bytes of a `u64`.
fn push_u64(out: &mut Vec<u8>, x: u64)
    ensures
        final(out)@ == old(out)@ + spec_u64_to_le_bytes(x),
{
    let mut b = u64_to_le_bytes(x);
    out.append(&mut b);
}

/// Appends the 32-byte encoding of an identity.
fn push_id(out: &mut Vec<u8>, id: ActorId)
    ensures
        final(out)@ == old(out)@ + spec_encode_id(id),
{
    push_u64(out, id.w0);
    push_u64(out, id.w1);
    push_u64(out, id.w2);
    push_u64(out, id.w3);
    proof {
        assert(final(out)@ =~= old(out)@ + spec_encode_id(id));
    }
}

/// Appends the compact encoding of a `u32`.
fn push_compact_u32(out: &mut Vec<u8>, v: u32)
    ensures
        final(out)@ == old(out)@ + spec_compact_u32(v),
{
    if v < 64 {
        out.push((v as u8) * 4);
        proof {
            assert(final(out)@ =~= old(out)@ + spec_compact_u32(v));
        }
    } else if v < 16384 {
        let x: u32 = v * 4 + 1;
        out.push((x % 256) as u8);
        out.push((x / 256) as u8);
        proof {
            assert(final(out)@ =~= old(out)@ + spec_compact_u32(v));
        }
    } else if v < 1073741824 {
        let x: u32 = v * 4 + 2;
        out.push((x % 256) as u8);
        out.push(((x / 256) % 256) as u8);
        out.push(((x / 65536) % 256) as u8);
        out.push((x / 16777216) as u8);
        proof {
            assert(final(out)@ =~= old(out)@ + spec_compact_u32(v));
        }
    } else {
        out.push(3u8);
        let mut b = u32_to_le_bytes(v);
        out.append(&mut b);
        proof {
            assert(final(out)@ =~= old(out)@ + spec_compact_u32(v));
        }
    }
}

/// Encodes a request into its canonical bytes.
pub fn encode_action(a: &TmgAction) -> (r: Vec<u8>)
    ensures
        r@ == spec_encode_action(*a),
{
    let mut out: Vec<u8> = Vec::new();
    match *a {
        TmgAction::Name => out.push(0u8),
        TmgAction::Age => out.push(1u8),
        TmgAction::Feed => out.push(2u8),
        TmgAction::Play => out.push(3u8),
        TmgAction::Sleep => out.push(4u8),
        TmgAction::Transfer(id) => {
            out.push(5u8);
            push_id(&mut out, id);
        },
        TmgAction::Approve(id) => {
            out.push(6u8);
            push_id(&mut out, id);
        },
        TmgAction::RevokeApproval => out.push(7u8),
        TmgAction::ApproveTokens { account, amount } => {
            out.push(8u8);
            push_id(&mut out, account);
            let mut b = u128_to_le_bytes(amount);
            out.append(&mut b);
        },
        TmgAction::SetFTokenContract(id) => {
            out.push(9u8);
            push_id(&mut out, id);
        },
        TmgAction::BuyAttribute { store_id, attribute_id } => {
            out.push(10u8);
            push_id(&mut out, store_id);
            let mut b = u32_to_le_bytes(attribute_id);
            out.append(&mut b);
        },
        TmgAction::CheckState => out.push(11u8),
        TmgAction::ReserveGas { reservation_amount, duration } => {
            out.push(12u8);
            push_u64(&mut out, reservation_amount);
            let mut b = u32_to_le_bytes(duration);
            out.append(&mut b);
        },
        TmgAction::Owner => out.push(13u8),
    }
    proof {
        assert(out@ =~= spec_encode_action(*a));
    }
    out
}

/// Encodes an event into its canonical bytes. A name longer than the
/// compact length prefix can carry cannot be encoded.
pub fn encode_event(e: &TmgEvent) -> (r: Vec<u8>)
    requires
        spec_event_encodable(*e),
    ensures
        r@ == spec_encode_event(*e),
{
    let mut out: Vec<u8> = Vec::new();
    match e {
        TmgEvent::Name(s) => {
            out.push(0u8);
            let mut b = s.as_str().as_bytes_vec();
            push_compact_u32(&mut out, b.len() as u32);
            out.append(&mut b);
        },
        TmgEvent::Age(a) => {
            out.push(1u8);
            push_u64(&mut out, *a);
        },
        TmgEvent::Fed => out.push(2u8),
        TmgEvent::Entertained => out.push(3u8),
        TmgEvent::Slept => out.push(4u8),
        TmgEvent::Transfer(id) => {
            out.push(5u8);
            push_id(&mut out, *id);
        },
        TmgEvent::Approve(id) => {
            out.push(6u8);
            push_id(&mut out, *id);
        },
        TmgEvent::RevokeApproval => out.push(7u8),
        TmgEvent::ApproveTokens { account, amount } => {
            out.push(8u8);
            push_id(&mut out, *account);
            let mut b = u128_to_le_bytes(*amount);
            out.append(&mut b);
        },
        TmgEvent::ApprovalError => out.push(9u8),
        TmgEvent::SetFTokenContract => out.push(10u8),
        TmgEvent::AttributeBought(id) => {
            out.push(11u8);
            let mut b = u32_to_le_bytes(*id);
            out.append(&mut b);
        },
        TmgEvent::CompletePrevPurchase(id) => {
            out.push(12u8);
            let mut b = u32_to_le_bytes(*id);
            out.append(&mut b);
        },
        TmgEvent::ErrorDuringPurchase => out.push(13u8),
        TmgEvent::FeedMe => out.push(14u8),
        TmgEvent::PlayWithMe => out.push(15u8),
        TmgEvent::WantToSleep => out.push(16u8),
        TmgEvent::MakeReservation => out.push(17u8),
        TmgEvent::GasReserved => out.push(18u8),
        TmgEvent::Owner { owner } => {
            out.push(19u8);
            push_id(&mut out, *owner);
        },
    }
    proof {
        assert(out@ =~= spec_encode_event(*e));
    }
    out
}

/// `p` occurs in `b` starting at position `i`.
pub open spec fn spec_prefix_at(b: Seq<u8>, i: int, p: Seq<u8>) -> bool {
    0 <= i && i + p.len() <= b.len() && b.subrange(i, i + p.len()) == p
}

/// How a value below 65536 comes apart into two bytes and reassembles.
proof fn lemma_two_bytes(b0: int, b1: int, x: int)
    requires
        0 <= b0 < 256,
        0 <= b1 < 256,
        x == b0 + 256 * b1,
    ensures
        x % 256 == b0,
        x / 256 == b1,
        x % 4 == b0 % 4,
{
    lemma_fundamental_div_mod_converse(x, 256, b1, b0);
    lemma_mod_multiples_vanish(64 * b1, b0, 4);
}

/// How a value below 2^32 comes apart into four bytes and reassembles.
proof fn lemma_four_bytes(b0: int, b1: int, b2: int, b3: int, x: int)
    requires
        0 <= b0 < 256,
        0 <= b1 < 256,
        0 <= b2 < 256,
        0 <= b3 < 256,
        x == b0 + 256 * b1 + 65536 * b2 + 16777216 * b3,
    ensures
        x % 256 == b0,
        (x / 256) % 256 == b1,
        (x / 65536) % 256 == b2,
        x / 16777216 == b3,
        x % 4 == b0 % 4,
{
    let y = b1 + 256 * b2 + 65536 * b3;
    lemma_fundamental_div_mod_converse(x, 256, y, b0);
    let z = b2 + 256 * b3;
    lemma_fundamental_div_mod_converse(y, 256, z, b1);
    lemma_fundamental_div_mod_converse(z, 256, b3, b2);
    lemma_div_denominator(x, 256, 256);
    lemma_div_denominator(x, 65536, 256);
    lemma_mod_multiples_vanish(64 * b1 + 16384 * b2 + 4194304 * b3, b0, 4);
}

/// The shape of a compact encoding: its length, how its first byte sorts
/// the four forms by its low two bits, and how its bytes carry the value.
pub proof fn lemma_compact_shape(v: u32)
    ensures
        1 <= spec_compact_u32(v).len() <= 5,
        v < 64 ==> spec_compact_u32(v).len() == 1 && spec_compact_u32(v)[0] == v * 4
            && spec_compact_u32(v)[0] % 4 == 0,
        64 <= v < 16384 ==> spec_compact_u32(v).len() == 2 && spec_compact_u32(v)[0] % 4 == 1
            && spec_compact_u32(v)[0] + 256 * spec_compact_u32(v)[1] == v * 4 + 1,
        16384 <= v < 1073741824 ==> spec_compact_u32(v).len() == 4 && spec_compact_u32(v)[0] % 4
            == 2 && spec_compact_u32(v)[0] + 256 * spec_compact_u32(v)[1] + 65536
            * spec_compact_u32(v)[2] + 16777216 * spec_compact_u32(v)[3] == v * 4 + 2,
        v >= 1073741824 ==> spec_compact_u32(v).len() == 5 && spec_compact_u32(v)[0] == 3
            && spec_compact_u32(v).subrange(1, 5) == spec_u32_to_le_bytes(v),
{
    if v < 64 {
        lemma_mod_multiples_vanish(v as int, 0, 4);
    } else if v < 16384 {
        let x = v * 4 + 1;
        lemma_fundamental_div_mod(x, 256);
        lemma_two_bytes(x % 256, x / 256, x);
        lemma_mod_multiples_vanish(v as int, 1, 4);
    } else if v < 1073741824 {
        let x = v * 4 + 2;
        lemma_fundamental_div_mod(x, 256);
        lemma_fundamental_div_mod(x / 256, 256);
        lemma_fundamental_div_mod(x / 65536, 256);
        lemma_div_denominator(x, 256, 256);
        lemma_div_denominator(x, 65536, 256);
        lemma_four_bytes(x % 256, (x / 256) % 256, (x / 65536) % 256, x / 16777216, x);
        lemma_mod_multiples_vanish(v as int, 2, 4);
    } else {
        lemma_auto_spec_u32_to_from_le_bytes();
        assert(spec_compact_u32(v).subrange(1, 5) =~= spec_u32_to_le_bytes(v));
    }
}

/// At a given position at most one compact encoding can occur, so a
/// compact prefix determines its value.
pub proof fn lemma_compact_prefix_unique(b: Seq<u8>, i: int, v1: u32, v2: u32)
    requires
        spec_prefix_at(b, i, spec_compact_u32(v1)),
        spec_prefix_at(b, i, spec_compact_u32(v2)),
    ensures
        v1 == v2,
{
    lemma_compact_shape(v1);
    lemma_compact_shape(v2);
    let p1 = spec_compact_u32(v1);
    let p2 = spec_compact_u32(v2);
    assert(forall|k: int| 0 <= k < p1.len() ==> p1[k] == b[i + k]);
    assert(forall|k: int| 0 <= k < p2.len() ==> p2[k] == b[i + k]);
    if v1 >= 1073741824 && v2 >= 1073741824 {
        assert(spec_u32_to_le_bytes(v1) =~= spec_u32_to_le_bytes(v2));
        lemma_auto_spec_u32_to_from_le_bytes();
    }
}

/// Reads a compact-encoded `u32` at position `i`: the value and the
/// position after it, exactly when a compact encoding starts there.
pub fn read_compact_u32(b: &Vec<u8>, i: usize) -> (r: Option<(u32, usize)>)
    requires
        i <= b@.len(),
    ensures
        match r {
            Some(p) => {
                &&& i < p.1 <= b@.len()
                &&& p.1 == i + spec_compact_u32(p.0).len()
                &&& b@.subrange(i as int, p.1 as int) == spec_compact_u32(p.0)
            },
            None => forall|v: u32| !spec_prefix_at(b@, i as int, spec_compact_u32(v)),
        },
{
    proof {
        assert forall|v: u32| spec_prefix_at(b@, i as int, spec_compact_u32(v)) implies
            spec_compact_u32(v).len() >= 1 && spec_compact_u32(v)[0] == b@[i as int] by {
            lemma_compact_shape(v);
        }
    }
    if i >= b.len() {
        proof {
            assert forall|v: u32| !spec_prefix_at(b@, i as int, spec_compact_u32(v)) by {
                lemma_compact_shape(v);
            }
        }
        return None;
    }
    let b0 = b[i];
    let mode = b0 % 4;
    proof {
        // Which form a prefix here would have to take, by its first byte.
        assert forall|v: u32| spec_prefix_at(b@, i as int, spec_compact_u32(v)) implies
            (if v < 64 {
                mode == 0
            } else if v < 16384 {
                mode == 1
            } else if v < 1073741824 {
                mode == 2
            } else {
                mode == 3 && b0 == 3
            }) by {
            lemma_compact_shape(v);
            if v < 64 {
                lemma_mod_multiples_vanish(v as int, 0, 4);
            } else if v < 16384 {
                lemma_compact_shape(v);
            }
        }
    }
    if mode == 0 {
        let v: u32 = (b0 / 4) as u32;
        proof {
            lemma_fundamental_div_mod(b0 as int, 4);
            lemma_compact_shape(v);
            assert(b@.subrange(i as int, i + 1) =~= spec_compact_u32(v));
        }
        Some((v, i + 1))
    } else if mode == 1 {
        if b.len() - i < 2 {
            proof {
                assert forall|v: u32| !spec_prefix_at(b@, i as int, spec_compact_u32(v)) by {
                    lemma_compact_shape(v);
                }
            }
            return None;
        }
        let b1 = b[i + 1];
        let x: u32 = (b0 as u32) + 256 * (b1 as u32);
        let v: u32 = x / 4;
        proof {
            lemma_two_bytes(b0 as int, b1 as int, x as int);
            lemma_fundamental_div_mod(x as int, 4);
        }
        if v >= 64 {
            proof {
                lemma_compact_shape(v);
                assert(b@.subrange(i as int, i + 2) =~= spec_compact_u32(v));
            }
            Some((v, i + 2))
        } else {
            proof {
                assert forall|w: u32| !spec_prefix_at(b@, i as int, spec_compact_u32(w)) by {
                    lemma_compact_shape(w);
                    if spec_prefix_at(b@, i as int, spec_compact_u32(w)) {
                        assert(spec_compact_u32(w)[1] == b@[i + 1]);
                        lemma_fundamental_div_mod_converse(x as int, 4, w as int, 1);
                    }
                }
            }
            None
        }
    } else if mode == 2 {
        if b.len() - i < 4 {
            proof {
                assert forall|v: u32| !spec_prefix_at(b@, i as int, spec_compact_u32(v)) by {
                    lemma_compact_shape(v);
                }
            }
            return None;
        }
        let b1 = b[i + 1];
        let b2 = b[i + 2];
        let b3 = b[i + 3];
        let x: u32 = (b0 as u32) + 256 * (b1 as u32) + 65536 * (b2 as u32) + 16777216 * (b3
            as u32);
        let v: u32 = x / 4;
        proof {
            lemma_four_bytes(b0 as int, b1 as int, b2 as int, b3 as int, x as int);
            lemma_fundamental_div_mod(x as int, 4);
        }
        if v >= 16384 {
            proof {
                lemma_compact_shape(v);
                assert(b@.subrange(i as int, i + 4) =~= spec_compact_u32(v));
            }
            Some((v, i + 4))
        } else {
            proof {
                assert forall|w: u32| !spec_prefix_at(b@, i as int, spec_compact_u32(w)) by {
                    lemma_compact_shape(w);
                    if spec_prefix_at(b@, i as int, spec_compact_u32(w)) {
                        assert(spec_compact_u32(w)[1] == b@[i + 1]);
                        assert(spec_compact_u32(w)[2] == b@[i + 2]);
                        assert(spec_compact_u32(w)[3] == b@[i + 3]);
                        lemma_fundamental_div_mod_converse(x as int, 4, w as int, 2);
                    }
                }
            }
            None
        }
    } else {
        if b0 != 3 || b.len() - i < 5 {
            proof {
                assert forall|v: u32| !spec_prefix_at(b@, i as int, spec_compact_u32(v)) by {
                    lemma_compact_shape(v);
                }
            }
            return None;
        }
        proof {
            lemma_auto_spec_u32_to_from_le_bytes();
        }
        let v = u32_from_le_bytes(slice_subrange(b.as_slice(), i + 1, i + 5));
        proof {
            assert(b@.subrange(i + 1, i + 5) == spec_u32_to_le_bytes(v));
        }
        if v >= 1073741824 {
            proof {
                lemma_compact_shape(v);
                assert(b@.subrange(i as int, i + 5) =~= spec_compact_u32(v));
            }
            Some((v, i + 5))
        } else {
            proof {
                assert forall|w: u32| !spec_prefix_at(b@, i as int, spec_compact_u32(w)) by {
                    lemma_compact_shape(w);
                    if spec_prefix_at(b@, i as int, spec_compact_u32(w)) {
                        assert(spec_compact_u32(w).subrange(1, 5) =~= b@.subrange(i + 1, i + 5));
                    }
                }
            }
            None
        }
    }
}

/// Reads a little-endian `u64` at position `i`.
fn read_u64_at(b: &Vec<u8>, i: usize) -> (x: u64)
    requires
        i + 8 <= b@.len(),
    ensures
        spec_u64_to_le_bytes(x) == b@.subrange(i as int, i + 8),
{
    proof {
        lemma_auto_spec_u64_to_from_le_bytes();
    }
    let n = b.len();
    u64_from_le_bytes(slice_subrange(b.as_slice(), i, i + 8))
}

/// Reads a little-endian `u32` at position `i`.
fn read_u32_at(b: &Vec<u8>, i: usize) -> (x: u32)
    requires
        i + 4 <= b@.len(),
    ensures
        spec_u32_to_le_bytes(x) == b@.subrange(i as int, i + 4),
{
    proof {
        lemma_auto_spec_u32_to_from_le_bytes();
    }
    let n = b.len();
    u32_from_le_bytes(slice_subrange(b.as_slice(), i, i + 4))
}

/// Reads a little-endian `u128` at position `i`.
fn read_u128_at(b: &Vec<u8>, i: usize) -> (x: u128)
    requires
        i + 16 <= b@.len(),
    ensures
        spec_u128_to_le_bytes(x) == b@.subrange(i as int, i + 16),
{
    proof {
        lemma_auto_spec_u128_to_from_le_bytes();
    }
    let n = b.len();
    u128_from_le_bytes(slice_subrange(b.as_slice(), i, i + 16))
}

/// Reads a 32-byte identity at position `i`.
fn read_id_at(b: &Vec<u8>, i: usize) -> (id: ActorId)
    requires
        i + 32 <= b@.len(),
    ensures
        spec_encode_id(id) == b@.subrange(i as int, i + 32),
{
    let n = b.len();
    let w0 = read_u64_at(b, i);
    let w1 = read_u64_at(b, i + 8);
    let w2 = read_u64_at(b, i + 16);
    let w3 = read_u64_at(b, i + 24);
    let id = ActorId { w0, w1, w2, w3 };
    proof {
        assert(spec_encode_id(id) =~= b@.subrange(i as int, i + 32));
    }
    id
}

/// The length of a request's encoding, as its discriminant byte fixes it.
pub open spec fn spec_action_len(a: TmgAction) -> int {
    match a {
        TmgAction::Transfer(_) | TmgAction::Approve(_) | TmgAction::SetFTokenContract(_) => 33,
        TmgAction::ApproveTokens { .. } => 49,
        TmgAction::BuyAttribute { .. } => 37,
        TmgAction::ReserveGas { .. } => 13,
        _ => 1,
    }
}

/// The shape of a request's encoding: its first byte is the discriminant
/// and its length is fixed by the variant.
pub proof fn lemma_encode_action_shape(a: TmgAction)
    ensures
        spec_encode_action(a).len() == spec_action_len(a),
        spec_encode_action(a).len() >= 1,
        spec_encode_action(a)[0] == spec_action_tag(a),
        spec_action_tag(a) <= 13,
{
    lemma_auto_spec_u64_to_from_le_bytes();
    lemma_auto_spec_u32_to_from_le_bytes();
    lemma_auto_spec_u128_to_from_le_bytes();
}

/// Decodes a request from its canonical bytes: `Some` exactly when the
/// bytes are the whole encoding of a request, and then of that request.
pub fn decode_action(b: &Vec<u8>) -> (r: Option<TmgAction>)
    ensures
        match r {
            Some(a) => b@ == spec_encode_action(a),
            None => forall|a: TmgAction| b@ != spec_encode_action(a),
        },
{
    proof {
        assert forall|a: TmgAction| b@ == spec_encode_action(a) implies b@.len()
            == spec_action_len(a) && b@.len() >= 1 && b@[0] == spec_action_tag(a) by {
            lemma_encode_action_shape(a);
        }
    }
    if b.len() == 0 {
        return None;
    }
    let tag = b[0];
    let n = b.len();
    match tag {
        0 => if n == 1 {
            proof {
                assert(b@ =~= spec_encode_action(TmgAction::Name));
            }
            Some(TmgAction::Name)
        } else {
            None
        },
        1 => if n == 1 {
            proof {
                assert(b@ =~= spec_encode_action(TmgAction::Age));
            }
            Some(TmgAction::Age)
        } else {
            None
        },
        2 => if n == 1 {
            proof {
                assert(b@ =~= spec_encode_action(TmgAction::Feed));
            }
            Some(TmgAction::Feed)
        } else {
            None
        },
        3 => if n == 1 {
            proof {
                assert(b@ =~= spec_encode_action(TmgAction::Play));
            }
            Some(TmgAction::Play)
        } else {
            None
        },
        4 => if n == 1 {
            proof {
                assert(b@ =~= spec_encode_action(TmgAction::Sleep));
            }
            Some(TmgAction::Sleep)
        } else {
            None
        },
        5 => if n == 33 {
            let id = read_id_at(b, 1);
            proof {
                assert(b@ =~= spec_encode_action(TmgAction::Transfer(id)));
            }
            Some(TmgAction::Transfer(id))
        } else {
            None
        },
        6 => if n == 33 {
            let id = read_id_at(b, 1);
            proof {
                assert(b@ =~= spec_encode_action(TmgAction::Approve(id)));
            }
            Some(TmgAction::Approve(id))
        } else {
            None
        },
        7 => if n == 1 {
            proof {
                assert(b@ =~= spec_encode_action(TmgAction::RevokeApproval));
            }
            Some(TmgAction::RevokeApproval)
        } else {
            None
        },
        8 => if n == 49 {
            let account = read_id_at(b, 1);
            let amount = read_u128_at(b, 33);
            proof {
                assert(b@ =~= spec_encode_action(TmgAction::ApproveTokens { account, amount }));
            }
            Some(TmgAction::ApproveTokens { account, amount })
        } else {
            None
        },
        9 => if n == 33 {
            let id = read_id_at(b, 1);
            proof {
                assert(b@ =~= spec_encode_action(TmgAction::SetFTokenContract(id)));
            }
            Some(TmgAction::SetFTokenContract(id))
        } else {
            None
        },
        10 => if n == 37 {
            let store_id = read_id_at(b, 1);
            let attribute_id = read_u32_at(b, 33);
            proof {
                assert(b@ =~= spec_encode_action(
                    TmgAction::BuyAttribute { store_id, attribute_id },
                ));
            }
            Some(TmgAction::BuyAttribute { store_id, attribute_id })
        } else {
            None
        },
        11 => if n == 1 {
            proof {
                assert(b@ =~= spec_encode_action(TmgAction::CheckState));
            }
            Some(TmgAction::CheckState)
        } else {
            None
        },
        12 => if n == 13 {
            let reservation_amount = read_u64_at(b, 1);
            let duration = read_u32_at(b, 9);
            proof {
                assert(b@ =~= spec_encode_action(
                    TmgAction::ReserveGas { reservation_amount, duration },
                ));
            }
            Some(TmgAction::ReserveGas { reservation_amount, duration })
        } else {
            None
        },
        13 => if n == 1 {
            proof {
                assert(b@ =~= spec_encode_action(TmgAction::Owner));
            }
            Some(TmgAction::Owner)
        } else {
            None
        },
        _ => None,
    }
}

/// The length of an event's encoding, as its discriminant byte and, for a
/// name, its text fix it.
pub open spec fn spec_event_len(e: TmgEvent) -> int {
    match e {
        TmgEvent::Name(s) => 1 + spec_compact_u32(encode_utf8(s@).len() as u32).len() as int
            + encode_utf8(s@).len() as int,
        TmgEvent::Age(_) => 9,
        TmgEvent::Transfer(_) | TmgEvent::Approve(_) | TmgEvent::Owner { .. } => 33,
        TmgEvent::ApproveTokens { .. } => 49,
        TmgEvent::AttributeBought(_) | TmgEvent::CompletePrevPurchase(_) => 5,
        _ => 1,
    }
}

/// The shape of an event's encoding: its first byte is the discriminant,
/// its length is fixed by the variant, and a name's encoding carries the
/// compact length of its text right after the discriminant.
pub proof fn lemma_encode_event_shape(e: TmgEvent)
    ensures
        spec_encode_event(e).len() == spec_event_len(e),
        spec_encode_event(e).len() >= 1,
        spec_encode_event(e)[0] == spec_event_tag(e),
        spec_event_tag(e) <= 19,
        e matches TmgEvent::Name(s) ==> spec_prefix_at(
            spec_encode_event(e),
            1,
            spec_compact_u32(encode_utf8(s@).len() as u32),
        ),
{
    lemma_auto_spec_u64_to_from_le_bytes();
    lemma_auto_spec_u32_to_from_le_bytes();
    lemma_auto_spec_u128_to_from_le_bytes();
    match e {
        TmgEvent::Name(s) => {
            let cl = spec_compact_u32(encode_utf8(s@).len() as u32);
            lemma_compact_shape(encode_utf8(s@).len() as u32);
            assert(spec_encode_event(e).subrange(1, 1 + cl.len() as int) =~= cl);
        },
        _ => (),
    }
}

/// Decodes an event from its canonical bytes: `Some` exactly when the
/// bytes are the whole encoding of an event, and then of that event.
pub fn decode_event(b: &Vec<u8>) -> (r: Option<TmgEvent>)
    ensures
        match r {
            Some(e) => b@ == spec_encode_event(e) && spec_event_encodable(e),
            None => forall|e: TmgEvent|
                spec_event_encodable(e) ==> b@ != spec_encode_event(e),
        },
{
    proof {
        assert forall|e: TmgEvent| b@ == spec_encode_event(e) implies b@.len()
            == spec_event_len(e) && b@.len() >= 1 && b@[0] == spec_event_tag(e) by {
            lemma_encode_event_shape(e);
        }
    }
    if b.len() == 0 {
        return None;
    }
    let tag = b[0];
    let n = b.len();
    match tag {
        0 => {
            match read_compact_u32(b, 1) {
                None => {
                    proof {
                        assert forall|e: TmgEvent|
                            spec_event_encodable(e) && b@ == spec_encode_event(e) implies false by {
                            lemma_encode_event_shape(e);
                        }
                    }
                    None
                },
                Some((len32, j)) => {
                    let len_us: usize = len32 as usize;
                    proof {
                        assert forall|e: TmgEvent|
                            spec_event_encodable(e) && b@ == spec_encode_event(e) implies (e
                            matches TmgEvent::Name(s) && encode_utf8(s@).len() == len32
                            && b@.len() == j + len32 && b@.subrange(j as int, j + len32)
                            == encode_utf8(s@)) by {
                            lemma_encode_event_shape(e);
                            match e {
                                TmgEvent::Name(s) => {
                                    let lv = encode_utf8(s@).len() as u32;
                                    lemma_compact_shape(lv);
                                    lemma_compact_prefix_unique(b@, 1, lv, len32);
                                    assert(b@.subrange(j as int, j + len32) =~= encode_utf8(s@));
                                },
                                _ => (),
                            }
                        }
                    }
                    if n - j != len_us {
                        return None;
                    }
                    let m = slice_to_vec(slice_subrange(b.as_slice(), j, n));
                    proof {
                        assert(m@ == b@.subrange(j as int, j + len32));
                    }
                    match string_from_utf8(m) {
                        Some(s) => {
                            proof {
                                decode_utf8_encode_utf8(b@.subrange(j as int, j + len32));
                                lemma_compact_shape(len32);
                                assert(b@ =~= spec_encode_event(TmgEvent::Name(s)));
                            }
                            Some(TmgEvent::Name(s))
                        },
                        None => {
                            proof {
                                assert forall|e: TmgEvent|
                                    spec_event_encodable(e) && b@ == spec_encode_event(e) implies
                                    false by {
                                    lemma_encode_event_shape(e);
                                    match e {
                                        TmgEvent::Name(s2) => {
                                            let lv = encode_utf8(s2@).len() as u32;
                                            lemma_compact_shape(lv);
                                            lemma_compact_prefix_unique(b@, 1, lv, len32);
                                            encode_utf8_valid_utf8(s2@);
                                            assert(b@.subrange(j as int, j + len32)
                                                =~= encode_utf8(s2@));
                                        },
                                        _ => (),
                                    }
                                }
                            }
                            None
                        },
                    }
                },
            }
        },
        1 => if n == 9 {
            let age = read_u64_at(b, 1);
            proof {
                assert(b@ =~= spec_encode_event(TmgEvent::Age(age)));
            }
            Some(TmgEvent::Age(age))
        } else {
            None
        },
        2 => if n == 1 {
            proof {
                assert(b@ =~= spec_encode_event(TmgEvent::Fed));
            }
            Some(TmgEvent::Fed)
        } else {
            None
        },
        3 => if n == 1 {
            proof {
                assert(b@ =~= spec_encode_event(TmgEvent::Entertained));
            }
            Some(TmgEvent::Entertained)
        } else {
            None
        },
        4 => if n == 1 {
            proof {
                assert(b@ =~= spec_encode_event(TmgEvent::Slept));
            }
            Some(TmgEvent::Slept)
        } else {
            None
        },
        5 => if n == 33 {
            let id = read_id_at(b, 1);
            proof {
                assert(b@ =~= spec_encode_event(TmgEvent::Transfer(id)));
            }
            Some(TmgEvent::Transfer(id))
        } else {
            None
        },
        6 => if n == 33 {
            let id = read_id_at(b, 1);
            proof {
                assert(b@ =~= spec_encode_event(TmgEvent::Approve(id)));
            }
            Some(TmgEvent::Approve(id))
        } else {
            None
        },
        7 => if n == 1 {
            proof {
                assert(b@ =~= spec_encode_event(TmgEvent::RevokeApproval));
            }
            Some(TmgEvent::RevokeApproval)
        } else {
            None
        },
        8 => if n == 49 {
            let account = read_id_at(b, 1);
            let amount = read_u128_at(b, 33);
            proof {
                assert(b@ =~= spec_encode_event(TmgEvent::ApproveTokens { account, amount }));
            }
            Some(TmgEvent::ApproveTokens { account, amount })
        } else {
            None
        },
        9 => if n == 1 {
            proof {
                assert(b@ =~= spec_encode_event(TmgEvent::ApprovalError));
            }
            Some(TmgEvent::ApprovalError)
        } else {
            None
        },
        10 => if n == 1 {
            proof {
                assert(b@ =~= spec_encode_event(TmgEvent::SetFTokenContract));
            }
            Some(TmgEvent::SetFTokenContract)
        } else {
            None
        },
        11 => if n == 5 {
            let id = read_u32_at(b, 1);
            proof {
                assert(b@ =~= spec_encode_event(TmgEvent::AttributeBought(id)));
            }
            Some(TmgEvent::AttributeBought(id))
        } else {
            None
        },
        12 => if n == 5 {
            let id = read_u32_at(b, 1);
            proof {
                assert(b@ =~= spec_encode_event(TmgEvent::CompletePrevPurchase(id)));
            }
            Some(TmgEvent::CompletePrevPurchase(id))
        } else {
            None
        },
        13 => if n == 1 {
            proof {
                assert(b@ =~= spec_encode_event(TmgEvent::ErrorDuringPurchase));
            }
            Some(TmgEvent::ErrorDuringPurchase)
        } else {
            None
        },
        14 => if n == 1 {
            proof {
                assert(b@ =~= spec_encode_event(TmgEvent::FeedMe));
            }
            Some(TmgEvent::FeedMe)
        } else {
            None
        },
        15 => if n == 1 {
            proof {
                assert(b@ =~= spec_encode_event(TmgEvent::PlayWithMe));
            }
            Some(TmgEvent::PlayWithMe)
        } else {
            None
        },
        16 => if n == 1 {
            proof {
                assert(b@ =~= spec_encode_event(TmgEvent::WantToSleep));
            }
            Some(TmgEvent::WantToSleep)
        } else {
            None
        },
        17 => if n == 1 {
            proof {
                assert(b@ =~= spec_encode_event(TmgEvent::MakeReservation));
            }
            Some(TmgEvent::MakeReservation)
        } else {
            None
        },
        18 => if n == 1 {
            proof {
                assert(b@ =~= spec_encode_event(TmgEvent::GasReserved));
            }
            Some(TmgEvent::GasReserved)
        } else {
            None
        },
        19 => if n == 33 {
            let owner = read_id_at(b, 1);
            proof {
                assert(b@ =~= spec_encode_event(TmgEvent::Owner { owner }));
            }
            Some(TmgEvent::Owner { owner })
        } else {
            None
        },
        _ => None,
    }
}

/// An identity encoding determines the identity.
pub proof fn lemma_encode_id_injective(id1: ActorId, id2: ActorId)
    requires
        spec_encode_id(id1) == spec_encode_id(id2),
    ensures
        id1 == id2,
{
    lemma_auto_spec_u64_to_from_le_bytes();
    let e = spec_encode_id(id1);
    assert(spec_u64_to_le_bytes(id1.w0) =~= e.subrange(0, 8));
    assert(spec_u64_to_le_bytes(id1.w1) =~= e.subrange(8, 16));
    assert(spec_u64_to_le_bytes(id1.w2) =~= e.subrange(16, 24));
    assert(spec_u64_to_le_bytes(id1.w3) =~= e.subrange(24, 32));
    assert(spec_u64_to_le_bytes(id2.w0) =~= e.subrange(0, 8));
    assert(spec_u64_to_le_bytes(id2.w1) =~= e.subrange(8, 16));
    assert(spec_u64_to_le_bytes(id2.w2) =~= e.subrange(16, 24));
    assert(spec_u64_to_le_bytes(id2.w3) =~= e.subrange(24, 32));
}

/// Encoding then decoding a request is the identity: `decode_action`
/// accepts exactly the canonical encodings, and by this lemma an encoding
/// determines the request it encodes.
pub proof fn lemma_encode_action_injective(a1: TmgAction, a2: TmgAction)
    requires
        spec_encode_action(a1) == spec_encode_action(a2),
    ensures
        a1 == a2,
{
    lemma_encode_action_shape(a1);
    lemma_encode_action_shape(a2);
    lemma_auto_spec_u64_to_from_le_bytes();
    lemma_auto_spec_u32_to_from_le_bytes();
    lemma_auto_spec_u128_to_from_le_bytes();
    let e = spec_encode_action(a1);
    match (a1, a2) {
        (TmgAction::Transfer(x), TmgAction::Transfer(y)) => {
            assert(spec_encode_id(x) =~= e.subrange(1, 33));
            assert(spec_encode_id(y) =~= e.subrange(1, 33));
            lemma_encode_id_injective(x, y);
        },
        (TmgAction::Approve(x), TmgAction::Approve(y)) => {
            assert(spec_encode_id(x) =~= e.subrange(1, 33));
            assert(spec_encode_id(y) =~= e.subrange(1, 33));
            lemma_encode_id_injective(x, y);
        },
        (TmgAction::SetFTokenContract(x), TmgAction::SetFTokenContract(y)) => {
            assert(spec_encode_id(x) =~= e.subrange(1, 33));
            assert(spec_encode_id(y) =~= e.subrange(1, 33));
            lemma_encode_id_injective(x, y);
        },
        (
            TmgAction::ApproveTokens { account: x, amount: m1 },
            TmgAction::ApproveTokens { account: y, amount: m2 },
        ) => {
            assert(spec_encode_id(x) =~= e.subrange(1, 33));
            assert(spec_encode_id(y) =~= e.subrange(1, 33));
            lemma_encode_id_injective(x, y);
            assert(spec_u128_to_le_bytes(m1) =~= e.subrange(33, 49));
            assert(spec_u128_to_le_bytes(m2) =~= e.subrange(33, 49));
        },
        (
            TmgAction::BuyAttribute { store_id: x, attribute_id: i1 },
            TmgAction::BuyAttribute { store_id: y, attribute_id: i2 },
        ) => {
            assert(spec_encode_id(x) =~= e.subrange(1, 33));
            assert(spec_encode_id(y) =~= e.subrange(1, 33));
            lemma_encode_id_injective(x, y);
            assert(spec_u32_to_le_bytes(i1) =~= e.subrange(33, 37));
            assert(spec_u32_to_le_bytes(i2) =~= e.subrange(33, 37));
        },
        (
            TmgAction::ReserveGas { reservation_amount: x1, duration: d1 },
            TmgAction::ReserveGas { reservation_amount: x2, duration: d2 },
        ) => {
            assert(spec_u64_to_le_bytes(x1) =~= e.subrange(1, 9));
            assert(spec_u64_to_le_bytes(x2) =~= e.subrange(1, 9));
            assert(spec_u32_to_le_bytes(d1) =~= e.subrange(9, 13));
            assert(spec_u32_to_le_bytes(d2) =~= e.subrange(9, 13));
        },
        _ => (),
    }
}

/// Two events are the same message: equal, except that names are compared
/// as text (two name events carrying equal text are the same message).
pub open spec fn spec_event_same(e1: TmgEvent, e2: TmgEvent) -> bool {
    match (e1, e2) {
        (TmgEvent::Name(s1), TmgEvent::Name(s2)) => s1@ == s2@,
        _ => e1 == e2,
    }
}

/// Encoding then decoding an event is the identity: `decode_event` accepts
/// exactly the canonical encodings, and by this lemma an encoding
/// determines the event it encodes, a name down to its text.
pub proof fn lemma_encode_event_injective(e1: TmgEvent, e2: TmgEvent)
    requires
        spec_encode_event(e1) == spec_encode_event(e2),
    ensures
        spec_event_same(e1, e2),
{
    lemma_encode_event_shape(e1);
    lemma_encode_event_shape(e2);
    lemma_auto_spec_u64_to_from_le_bytes();
    lemma_auto_spec_u32_to_from_le_bytes();
    lemma_auto_spec_u128_to_from_le_bytes();
    let e = spec_encode_event(e1);
    match (e1, e2) {
        (TmgEvent::Name(s1), TmgEvent::Name(s2)) => {
            let l1 = encode_utf8(s1@).len() as u32;
            let l2 = encode_utf8(s2@).len() as u32;
            lemma_compact_prefix_unique(e, 1, l1, l2);
            let j = 1 + spec_compact_u32(l1).len() as int;
            assert(encode_utf8(s1@) =~= e.subrange(j, e.len() as int));
            assert(encode_utf8(s2@) =~= e.subrange(j, e.len() as int));
            encode_utf8_decode_utf8(s1@);
            encode_utf8_decode_utf8(s2@);
        },
        (TmgEvent::Age(x1), TmgEvent::Age(x2)) => {
            assert(spec_u64_to_le_bytes(x1) =~= e.subrange(1, 9));
            assert(spec_u64_to_le_bytes(x2) =~= e.subrange(1, 9));
        },
        (TmgEvent::Transfer(x), TmgEvent::Transfer(y)) => {
            assert(spec_encode_id(x) =~= e.subrange(1, 33));
            assert(spec_encode_id(y) =~= e.subrange(1, 33));
            lemma_encode_id_injective(x, y);
        },
        (TmgEvent::Approve(x), TmgEvent::Approve(y)) => {
            assert(spec_encode_id(x) =~= e.subrange(1, 33));
            assert(spec_encode_id(y) =~= e.subrange(1, 33));
            lemma_encode_id_injective(x, y);
        },
        (TmgEvent::Owner { owner: x }, TmgEvent::Owner { owner: y }) => {
            assert(spec_encode_id(x) =~= e.subrange(1, 33));
            assert(spec_encode_id(y) =~= e.subrange(1, 33));
            lemma_encode_id_injective(x, y);
        },
        (
            TmgEvent::ApproveTokens { account: x, amount: m1 },
            TmgEvent::ApproveTokens { account: y, amount: m2 },
        ) => {
            assert(spec_encode_id(x) =~= e.subrange(1, 33));
            assert(spec_encode_id(y) =~= e.subrange(1, 33));
            lemma_encode_id_injective(x, y);
            assert(spec_u128_to_le_bytes(m1) =~= e.subrange(33, 49));
            assert(spec_u128_to_le_bytes(m2) =~= e.subrange(33, 49));
        },
        (TmgEvent::AttributeBought(i1), TmgEvent::AttributeBought(i2)) => {
            assert(spec_u32_to_le_bytes(i1) =~= e.subrange(1, 5));
            assert(spec_u32_to_le_bytes(i2) =~= e.subrange(1, 5));
        },
        (TmgEvent::CompletePrevPurchase(i1), TmgEvent::CompletePrevPurchase(i2)) => {
            assert(spec_u32_to_le_bytes(i1) =~= e.subrange(1, 5));
            assert(spec_u32_to_le_bytes(i2) =~= e.subrange(1, 5));
        },
        _ => (),
    }
}

/// The 32-byte encoding of a reservation handle, like an identity's.
pub open spec fn spec_encode_reservation(h: ReservationId) -> Seq<u8> {
    spec_u64_to_le_bytes(h.w0) + spec_u64_to_le_bytes(h.w1) + spec_u64_to_le_bytes(h.w2)
        + spec_u64_to_le_bytes(h.w3)
}

/// The encoding of a reservation pool's items, in order.
pub open spec fn spec_encode_reservations(rs: Seq<ReservationId>) -> Seq<u8>
    decreases rs.len(),
{
    if rs.len() == 0 {
        Seq::empty()
    } else {
        spec_encode_reservation(rs[0]) + spec_encode_reservations(rs.skip(1))
    }
}

proof fn lemma_encode_reservations_concat(s1: Seq<ReservationId>, s2: Seq<ReservationId>)
    ensures
        spec_encode_reservations(s1 + s2) == spec_encode_reservations(s1)
            + spec_encode_reservations(s2),
    decreases s1.len(),
{
    if s1.len() == 0 {
        assert(s1 + s2 =~= s2);
        assert(spec_encode_reservations(s1) + spec_encode_reservations(s2) =~=
            spec_encode_reservations(s2));
    } else {
        assert((s1 + s2).skip(1) =~= s1.skip(1) + s2);
        lemma_encode_reservations_concat(s1.skip(1), s2);
        assert(spec_encode_reservations(s1 + s2) =~= spec_encode_reservations(s1)
            + spec_encode_reservations(s2));
    }
}

/// The encoding of an optional identity: an absence byte, or a presence
/// byte and the identity.
pub open spec fn spec_encode_option_id(o: Option<ActorId>) -> Seq<u8> {
    match o {
        None => seq![0u8],
        Some(id) => seq![1u8] + spec_encode_id(id),
    }
}

/// The encoding of an optional pending approval: an absence byte, or a
/// presence byte and the descriptor's fields in order.
pub open spec fn spec_encode_pending(o: Option<(u64, ActorId, u128)>) -> Seq<u8> {
    match o {
        None => seq![0u8],
        Some(t) => seq![1u8] + spec_u64_to_le_bytes(t.0) + spec_encode_id(t.1)
            + spec_u128_to_le_bytes(t.2),
    }
}

/// A pet record whose encoding exists: the name's UTF-8 form and the
/// reservation count must fit their compact length prefixes.
pub open spec fn spec_pet_encodable(pet: Tamagotchi) -> bool {
    &&& encode_utf8(pet.name@).len() <= u32::MAX
    &&& pet.reservations@.len() <= u32::MAX
}

/// The canonical encoding of the whole pet record, fields in declared
/// order, as the read-only state endpoint replies with it.
pub open spec fn spec_encode_pet(pet: Tamagotchi) -> Seq<u8> {
    spec_encode_text(pet.name@) + spec_u64_to_le_bytes(pet.date_of_birth) + spec_encode_id(
        pet.owner,
    ) + spec_u64_to_le_bytes(pet.fed) + spec_u64_to_le_bytes(pet.fed_block) + spec_u64_to_le_bytes(
        pet.entertained,
    ) + spec_u64_to_le_bytes(pet.entertained_block) + spec_u64_to_le_bytes(pet.rested)
        + spec_u64_to_le_bytes(pet.rested_block) + spec_encode_option_id(pet.allowed_account)
        + spec_encode_id(pet.ft_contract_id) + spec_u64_to_le_bytes(pet.ft_transaction_id)
        + spec_encode_pending(pet.approve_transaction) + spec_compact_u32(
        pet.reservations@.len() as u32,
    ) + spec_encode_reservations(pet.reservations@)
}

/// Appends the 32-byte encoding of a reservation handle.
fn push_reservation(out: &mut Vec<u8>, h: ReservationId)
    ensures
        final(out)@ == old(out)@ + spec_encode_reservation(h),
{
    push_u64(out, h.w0);
    push_u64(out, h.w1);
    push_u64(out, h.w2);
    push_u64(out, h.w3);
    proof {
        assert(final(out)@ =~= old(out)@ + spec_encode_reservation(h));
    }
}

/// Encodes the whole pet record for the read-only state endpoint.
pub fn encode_pet(pet: &Tamagotchi) -> (r: Vec<u8>)
    requires
        spec_pet_encodable(*pet),
    ensures
        r@ == spec_encode_pet(*pet),
{
    let mut out: Vec<u8> = Vec::new();
    let mut name_bytes = pet.name.as_str().as_bytes_vec();
    push_compact_u32(&mut out, name_bytes.len() as u32);
    out.append(&mut name_bytes);
    push_u64(&mut out, pet.date_of_birth);
    push_id(&mut out, pet.owner);
    push_u64(&mut out, pet.fed);
    push_u64(&mut out, pet.fed_block);
    push_u64(&mut out, pet.entertained);
    push_u64(&mut out, pet.entertained_block);
    push_u64(&mut out, pet.rested);
    push_u64(&mut out, pet.rested_block);
    match pet.allowed_account {
        None => out.push(0u8),
        Some(id) => {
            out.push(1u8);
            push_id(&mut out, id);
        },
    }
    push_id(&mut out, pet.ft_contract_id);
    push_u64(&mut out, pet.ft_transaction_id);
    match pet.approve_transaction {
        None => out.push(0u8),
        Some(t) => {
            out.push(1u8);
            push_u64(&mut out, t.0);
            push_id(&mut out, t.1);
            let mut b = u128_to_le_bytes(t.2);
            out.append(&mut b);
        },
    }
    push_compact_u32(&mut out, pet.reservations.len() as u32);
    let ghost head = out@;
    let n = pet.reservations.len();
    let mut i: usize = 0;
    while i < n
        invariant
            n == pet.reservations@.len(),
            i <= n,
            out@ == head + spec_encode_reservations(pet.reservations@.take(i as int)),
        decreases n - i,
    {
        push_reservation(&mut out, pet.reservations[i]);
        proof {
            let rs = pet.reservations@;
            let x = rs[i as int];
            assert(rs.take(i + 1) =~= rs.take(i as int) + seq![x]);
            lemma_encode_reservations_concat(rs.take(i as int), seq![x]);
            assert(seq![x].skip(1) =~= Seq::<ReservationId>::empty());
            assert(spec_encode_reservations(Seq::<ReservationId>::empty()) =~= Seq::<u8>::empty());
            assert(spec_encode_reservations(seq![x]) == spec_encode_reservation(x)
                + spec_encode_reservations(seq![x].skip(1)));
            assert(spec_encode_reservations(seq![x]) =~= spec_encode_reservation(x));
        }
        i = i + 1;
    }
    proof {
        assert(pet.reservations@.take(n as int) =~= pet.reservations@);
        assert(out@ =~= spec_encode_pet(*pet));
    }
    out
}

} // verus!
