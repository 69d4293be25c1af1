//! The dispatcher: a pure state machine from (state, request, message
//! context) to (next state, outcome).
//!
//! The host runtime delivers decoded requests here together with the caller
//! identity and the current block timestamp, performs whatever the outcome
//! asks (reply, external call, gas reservation), and feeds external replies
//! back through the `resume_*` and `complete_*` functions.

use crate::codec::string_from_utf8;
use crate::ids::{ActorId, ReservationId};
use crate::state::{Tamagotchi, TmgAction, TmgEvent};
use crate::vitals::{
    spec_level_at, spec_refilled, level_at, refill, MAX_LEVEL, HUNGER_PER_BLOCK, BOREDOM_PER_BLOCK,
    ENERGY_PER_BLOCK, FILL_PER_FEED, FILL_PER_ENTERTAINMENT, FILL_PER_SLEEP,
};
use vstd::prelude::*;
use vstd::utf8::{decode_utf8, valid_utf8};

verus! {

/// Below this level a vital makes the pet ask for attention.
pub const ATTENTION_THRESHOLD: u64 = 100;

/// A `CheckState` self-ping is scheduled this many blocks ahead of every
/// externally-originated request.
pub const CHECK_STATE_DELAY: u32 = 60;

/// What the host knows about the message being handled.
#[derive(Clone, Copy, Debug)]
pub struct MsgInfo {
    /// Who sent the message.
    pub source: ActorId,
    /// The pet's own actor identity.
    pub program: ActorId,
    /// The current block timestamp.
    pub block: u64,
}

/// What the host must do after a request was handled.
#[derive(Debug, PartialEq, Eq)]
pub enum Outcome {
    /// Reply with this event.
    Reply(TmgEvent),
    /// Reply with nothing: a `CheckState` found every vital healthy.
    NoReply,
    /// Send an approval of `amount` tokens for `account`, tagged with
    /// `transaction_id`, to the token actor `target`, and hand the result to
    /// `resume_approve`.
    ApproveCall { target: ActorId, transaction_id: u64, account: ActorId, amount: u128 },
    /// Send a purchase of `attribute_id` to the store actor `store_id`, and
    /// hand the result to `purchase_event`.
    PurchaseCall { store_id: ActorId, attribute_id: u32 },
    /// Escrow `reservation_amount` execution credits for `duration` blocks,
    /// and hand the obtained handle to `complete_reservation`.
    ReserveCall { reservation_amount: u64, duration: u32 },
}

/// Failures that abort the current message with no state change.
#[derive(Clone, Copy, Debug, PartialEq, Eq, Structural)]
pub enum HandleError {
    /// The caller may not perform the requested action.
    NotAuthorized,
}

/// The caller is the current owner or the delegated operator.
pub open spec fn spec_owner_or_operator(pet: Tamagotchi, caller: ActorId) -> bool {
    ||| pet.owner == caller
    ||| pet.allowed_account matches Some(a) && a == caller
}

/// Who may perform which request: queries are open to anyone; actions are
/// for the owner or the operator; administration is for the owner alone;
/// `CheckState` only arrives from the pet itself.
pub open spec fn spec_authorized(pet: Tamagotchi, action: TmgAction, msg: MsgInfo) -> bool {
    match action {
        TmgAction::Name | TmgAction::Age | TmgAction::Owner => true,
        TmgAction::Feed | TmgAction::Play | TmgAction::Sleep => spec_owner_or_operator(
            pet,
            msg.source,
        ),
        TmgAction::ApproveTokens { .. } | TmgAction::BuyAttribute { .. } => spec_owner_or_operator(
            pet,
            msg.source,
        ),
        TmgAction::Transfer(_) | TmgAction::Approve(_) | TmgAction::RevokeApproval
        | TmgAction::SetFTokenContract(_) | TmgAction::ReserveGas { .. } => pet.owner
            == msg.source,
        TmgAction::CheckState => msg.source == msg.program,
    }
}

/// A pending approval matches the requested `(account, amount)`.
pub open spec fn spec_matching_pending(pet: Tamagotchi, account: ActorId, amount: u128) -> bool {
    pet.approve_transaction matches Some(t) && t.1 == account && t.2 == amount
}

/// The transaction id a token approval goes out under: the pending one when
/// it matches, else the next fresh id.
pub open spec fn spec_approve_tx_id(pet: Tamagotchi, account: ActorId, amount: u128) -> u64 {
    if spec_matching_pending(pet, account, amount) {
        pet.approve_transaction.unwrap().0
    } else {
        pet.ft_transaction_id
    }
}

/// The state after a token approval is issued: unchanged on a matching
/// retry, else the counter advances and the new descriptor is pending.
pub open spec fn spec_approve_start(pet: Tamagotchi, account: ActorId, amount: u128) -> Tamagotchi {
    if spec_matching_pending(pet, account, amount) {
        pet
    } else {
        Tamagotchi {
            ft_transaction_id: (pet.ft_transaction_id + 1) as u64,
            approve_transaction: Some((pet.ft_transaction_id, account, amount)),
            ..pet
        }
    }
}

/// What a `CheckState` self-ping replies: the first vital found below the
/// attention threshold, in the order fullness, rest, entertainment; nothing
/// when all are healthy.
pub open spec fn spec_check_state_reply(pet: Tamagotchi, now: u64) -> Option<TmgEvent> {
    if spec_level_at(pet.fed, pet.fed_block, now, HUNGER_PER_BLOCK) < ATTENTION_THRESHOLD {
        Some(TmgEvent::FeedMe)
    } else if spec_level_at(pet.rested, pet.rested_block, now, ENERGY_PER_BLOCK)
        < ATTENTION_THRESHOLD {
        Some(TmgEvent::WantToSleep)
    } else if spec_level_at(pet.entertained, pet.entertained_block, now, BOREDOM_PER_BLOCK)
        < ATTENTION_THRESHOLD {
        Some(TmgEvent::PlayWithMe)
    } else {
        None
    }
}

/// The state after a request is handled (queries and suspended calls other
/// than the token approval leave it untouched).
pub open spec fn spec_handle_transition(pet: Tamagotchi, action: TmgAction, msg: MsgInfo) -> Tamagotchi {
    match action {
        TmgAction::Feed => Tamagotchi {
            fed: spec_refilled(pet.fed, pet.fed_block, msg.block, HUNGER_PER_BLOCK, FILL_PER_FEED),
            fed_block: msg.block,
            ..pet
        },
        TmgAction::Play => Tamagotchi {
            entertained: spec_refilled(
                pet.entertained,
                pet.entertained_block,
                msg.block,
                BOREDOM_PER_BLOCK,
                FILL_PER_ENTERTAINMENT,
            ),
            entertained_block: msg.block,
            ..pet
        },
        TmgAction::Sleep => Tamagotchi {
            rested: spec_refilled(
                pet.rested,
                pet.rested_block,
                msg.block,
                ENERGY_PER_BLOCK,
                FILL_PER_SLEEP,
            ),
            rested_block: msg.block,
            ..pet
        },
        TmgAction::Transfer(new_owner) => Tamagotchi {
            owner: new_owner,
            allowed_account: None,
            ..pet
        },
        TmgAction::Approve(account) => Tamagotchi { allowed_account: Some(account), ..pet },
        TmgAction::RevokeApproval => Tamagotchi { allowed_account: None, ..pet },
        TmgAction::SetFTokenContract(id) => Tamagotchi { ft_contract_id: id, ..pet },
        TmgAction::ApproveTokens { account, amount } => if pet.ft_contract_id
            == ActorId::spec_null() {
            pet
        } else {
            spec_approve_start(pet, account, amount)
        },
        _ => pet,
    }
}

/// The outcome owed for a request, given the state it arrived in.
pub open spec fn spec_handle_outcome(
    pet: Tamagotchi,
    action: TmgAction,
    msg: MsgInfo,
    out: Outcome,
) -> bool {
    match action {
        TmgAction::Name => out matches Outcome::Reply(TmgEvent::Name(s)) && s@ == pet.name@,
        TmgAction::Age => out == Outcome::Reply(TmgEvent::Age(pet.date_of_birth)),
        TmgAction::Feed => out == Outcome::Reply(TmgEvent::Fed),
        TmgAction::Play => out == Outcome::Reply(TmgEvent::Entertained),
        TmgAction::Sleep => out == Outcome::Reply(TmgEvent::Slept),
        TmgAction::Transfer(new_owner) => out == Outcome::Reply(TmgEvent::Transfer(new_owner)),
        TmgAction::Approve(account) => out == Outcome::Reply(TmgEvent::Approve(account)),
        TmgAction::RevokeApproval => out == Outcome::Reply(TmgEvent::RevokeApproval),
        TmgAction::SetFTokenContract(_) => out == Outcome::Reply(TmgEvent::SetFTokenContract),
        TmgAction::ApproveTokens { account, amount } => if pet.ft_contract_id
            == ActorId::spec_null() {
            out == Outcome::Reply(TmgEvent::ApprovalError)
        } else {
            out == (Outcome::ApproveCall {
                target: pet.ft_contract_id,
                transaction_id: spec_approve_tx_id(pet, account, amount),
                account,
                amount,
            })
        },
        TmgAction::BuyAttribute { store_id, attribute_id } => out == (Outcome::PurchaseCall {
            store_id,
            attribute_id,
        }),
        TmgAction::CheckState => match spec_check_state_reply(pet, msg.block) {
            Some(e) => out == Outcome::Reply(e),
            None => out == Outcome::NoReply,
        },
        TmgAction::ReserveGas { reservation_amount, duration } => out == (Outcome::ReserveCall {
            reservation_amount,
            duration,
        }),
        TmgAction::Owner => out == Outcome::Reply(TmgEvent::Owner { owner: pet.owner }),
    }
}

/// All fields agree except the reservation pool.
pub open spec fn spec_eq_except_reservations(a: Tamagotchi, b: Tamagotchi) -> bool {
    &&& a.name == b.name
    &&& a.date_of_birth == b.date_of_birth
    &&& a.owner == b.owner
    &&& a.fed == b.fed
    &&& a.fed_block == b.fed_block
    &&& a.entertained == b.entertained
    &&& a.entertained_block == b.entertained_block
    &&& a.rested == b.rested
    &&& a.rested_block == b.rested_block
    &&& a.allowed_account == b.allowed_account
    &&& a.ft_contract_id == b.ft_contract_id
    &&& a.ft_transaction_id == b.ft_transaction_id
    &&& a.approve_transaction == b.approve_transaction
}

impl Tamagotchi {
    /// Creates the pet from the raw init payload: the UTF-8 bytes of its
    /// name. Returns `None` exactly when the bytes are not valid UTF-8 or
    /// decode to an empty name.
    pub fn init(name_bytes: Vec<u8>, msg: MsgInfo) -> (r: Option<Tamagotchi>)
        ensures
            r is Some <==> valid_utf8(name_bytes@) && decode_utf8(name_bytes@).len() > 0,
            r matches Some(pet) ==> {
                &&& pet.name@ == decode_utf8(name_bytes@)
                &&& pet.date_of_birth == msg.block
                &&& pet.owner == msg.source
                &&& pet.fed == MAX_LEVEL && pet.fed_block == msg.block
                &&& pet.entertained == MAX_LEVEL && pet.entertained_block == msg.block
                &&& pet.rested == MAX_LEVEL && pet.rested_block == msg.block
                &&& pet.allowed_account is None
                &&& pet.ft_contract_id == ActorId::spec_null()
                &&& pet.ft_transaction_id == 0
                &&& pet.approve_transaction is None
                &&& pet.reservations@ =~= Seq::<ReservationId>::empty()
                &&& pet.wf()
                &&& pet.clock_ok(msg.block)
            },
    {
        match string_from_utf8(name_bytes) {
            None => None,
            Some(name) => {
                if name.as_str().unicode_len() == 0 {
                    None
                } else {
                    Some(
                        Tamagotchi {
                            name,
                            date_of_birth: msg.block,
                            owner: msg.source,
                            fed: MAX_LEVEL,
                            fed_block: msg.block,
                            entertained: MAX_LEVEL,
                            entertained_block: msg.block,
                            rested: MAX_LEVEL,
                            rested_block: msg.block,
                            allowed_account: None,
                            ft_contract_id: ActorId::null(),
                            ft_transaction_id: 0,
                            approve_transaction: None,
                            reservations: Vec::new(),
                        },
                    )
                }
            },
        }
    }

    /// The caller is the owner or the delegated operator.
    pub fn is_owner_or_operator(&self, caller: ActorId) -> (r: bool)
        ensures
            r == spec_owner_or_operator(*self, caller),
    {
        if self.owner == caller {
            true
        } else {
            match self.allowed_account {
                Some(a) => a == caller,
                None => false,
            }
        }
    }

    /// Handles one decoded request. On an authorization failure the state
    /// is untouched and the message is fatal; otherwise the state steps by
    /// `spec_handle_transition` and the outcome is owed by
    /// `spec_handle_outcome`.
    pub fn handle(&mut self, action: &TmgAction, msg: MsgInfo) -> (r: Result<Outcome, HandleError>)
        requires
            old(self).wf(),
            old(self).clock_ok(msg.block),
            action matches TmgAction::ApproveTokens { .. } ==> old(self).ft_transaction_id
                < u64::MAX,
        ensures
            r is Err <==> !spec_authorized(*old(self), *action, msg),
            r matches Err(e) ==> e == HandleError::NotAuthorized && *final(self) == *old(self),
            r matches Ok(out) ==> {
                &&& *final(self) == spec_handle_transition(*old(self), *action, msg)
                &&& spec_handle_outcome(*old(self), *action, msg, out)
            },
            final(self).wf(),
            final(self).clock_ok(msg.block),
    {
        let authorized: bool = match *action {
            TmgAction::Name | TmgAction::Age | TmgAction::Owner => true,
            TmgAction::Feed | TmgAction::Play | TmgAction::Sleep => self.is_owner_or_operator(
                msg.source,
            ),
            TmgAction::ApproveTokens { .. } | TmgAction::BuyAttribute { .. } => self
                .is_owner_or_operator(msg.source),
            TmgAction::Transfer(_) | TmgAction::Approve(_) | TmgAction::RevokeApproval
            | TmgAction::SetFTokenContract(_) | TmgAction::ReserveGas { .. } => self.owner
                == msg.source,
            TmgAction::CheckState => msg.source == msg.program,
        };
        if !authorized {
            return Err(HandleError::NotAuthorized);
        }
        match *action {
            TmgAction::Name => {
                let name = self.name.as_str().to_owned();
                Ok(Outcome::Reply(TmgEvent::Name(name)))
            },
            TmgAction::Age => Ok(Outcome::Reply(TmgEvent::Age(self.date_of_birth))),
            TmgAction::Feed => {
                self.fed = refill(self.fed, self.fed_block, msg.block, HUNGER_PER_BLOCK,
                    FILL_PER_FEED);
                self.fed_block = msg.block;
                Ok(Outcome::Reply(TmgEvent::Fed))
            },
            TmgAction::Play => {
                self.entertained = refill(self.entertained, self.entertained_block, msg.block,
                    BOREDOM_PER_BLOCK, FILL_PER_ENTERTAINMENT);
                self.entertained_block = msg.block;
                Ok(Outcome::Reply(TmgEvent::Entertained))
            },
            TmgAction::Sleep => {
                self.rested = refill(self.rested, self.rested_block, msg.block, ENERGY_PER_BLOCK,
                    FILL_PER_SLEEP);
                self.rested_block = msg.block;
                Ok(Outcome::Reply(TmgEvent::Slept))
            },
            TmgAction::Transfer(new_owner) => {
                self.owner = new_owner;
                self.allowed_account = None;
                Ok(Outcome::Reply(TmgEvent::Transfer(new_owner)))
            },
            TmgAction::Approve(account) => {
                self.allowed_account = Some(account);
                Ok(Outcome::Reply(TmgEvent::Approve(account)))
            },
            TmgAction::RevokeApproval => {
                self.allowed_account = None;
                Ok(Outcome::Reply(TmgEvent::RevokeApproval))
            },
            TmgAction::SetFTokenContract(id) => {
                self.ft_contract_id = id;
                Ok(Outcome::Reply(TmgEvent::SetFTokenContract))
            },
            TmgAction::ApproveTokens { account, amount } => {
                if self.ft_contract_id == ActorId::null() {
                    Ok(Outcome::Reply(TmgEvent::ApprovalError))
                } else {
                    let tx_id: u64 = match self.approve_transaction {
                        Some(t) => {
                            if t.1 == account && t.2 == amount {
                                t.0
                            } else {
                                let fresh = self.ft_transaction_id;
                                self.ft_transaction_id = fresh + 1;
                                self.approve_transaction = Some((fresh, account, amount));
                                fresh
                            }
                        },
                        None => {
                            let fresh = self.ft_transaction_id;
                            self.ft_transaction_id = fresh + 1;
                            self.approve_transaction = Some((fresh, account, amount));
                            fresh
                        },
                    };
                    Ok(
                        Outcome::ApproveCall {
                            target: self.ft_contract_id,
                            transaction_id: tx_id,
                            account,
                            amount,
                        },
                    )
                }
            },
            TmgAction::BuyAttribute { store_id, attribute_id } => Ok(
                Outcome::PurchaseCall { store_id, attribute_id },
            ),
            TmgAction::CheckState => {
                let fed_now = level_at(self.fed, self.fed_block, msg.block, HUNGER_PER_BLOCK);
                if fed_now < ATTENTION_THRESHOLD {
                    return Ok(Outcome::Reply(TmgEvent::FeedMe));
                }
                let rested_now = level_at(self.rested, self.rested_block, msg.block,
                    ENERGY_PER_BLOCK);
                if rested_now < ATTENTION_THRESHOLD {
                    return Ok(Outcome::Reply(TmgEvent::WantToSleep));
                }
                let entertained_now = level_at(self.entertained, self.entertained_block, msg.block,
                    BOREDOM_PER_BLOCK);
                if entertained_now < ATTENTION_THRESHOLD {
                    return Ok(Outcome::Reply(TmgEvent::PlayWithMe));
                }
                Ok(Outcome::NoReply)
            },
            TmgAction::ReserveGas { reservation_amount, duration } => Ok(
                Outcome::ReserveCall { reservation_amount, duration },
            ),
            TmgAction::Owner => Ok(Outcome::Reply(TmgEvent::Owner { owner: self.owner })),
        }
    }

    /// Whether handling this message must also schedule a delayed
    /// `CheckState` self-ping: it must for every externally-originated
    /// request, and must not for the pet's own pings, which would otherwise
    /// chain without bound.
    pub fn schedules_ping(msg: MsgInfo) -> (r: bool)
        ensures
            r == (msg.source != msg.program),
    {
        msg.source != msg.program
    }

    /// Resumes a suspended token approval with the outcome of the external
    /// call: success clears the pending descriptor and confirms; failure
    /// keeps it for an idempotent retry and reports the error.
    pub fn resume_approve(&mut self, success: bool) -> (r: TmgEvent)
        requires
            old(self).approve_transaction is Some,
        ensures
            success ==> *final(self) == (Tamagotchi { approve_transaction: None, ..*old(self) }),
            success ==> r == (TmgEvent::ApproveTokens {
                account: old(self).approve_transaction.unwrap().1,
                amount: old(self).approve_transaction.unwrap().2,
            }),
            !success ==> *final(self) == *old(self) && r == TmgEvent::ApprovalError,
    {
        if success {
            let event = match self.approve_transaction {
                Some(t) => TmgEvent::ApproveTokens { account: t.1, amount: t.2 },
                None => TmgEvent::ApprovalError,
            };
            self.approve_transaction = None;
            event
        } else {
            TmgEvent::ApprovalError
        }
    }

    /// Appends the reservation handle the host escrowed; the pool is strict
    /// FIFO, so the handle goes to the back.
    pub fn complete_reservation(&mut self, handle: ReservationId) -> (r: TmgEvent)
        ensures
            final(self).reservations@ == old(self).reservations@.push(handle),
            spec_eq_except_reservations(*old(self), *final(self)),
            r == TmgEvent::GasReserved,
    {
        self.reservations.push(handle);
        TmgEvent::GasReserved
    }

    /// The signal handler's step: pops the oldest reservation handle, if
    /// any, for the host to send a `MakeReservation` from; an empty pool
    /// leaves the state untouched and sends nothing.
    pub fn pop_reservation(&mut self) -> (r: Option<ReservationId>)
        ensures
            old(self).reservations@.len() == 0 ==> r is None && *final(self) == *old(self),
            old(self).reservations@.len() > 0 ==> {
                &&& r == Some(old(self).reservations@[0])
                &&& final(self).reservations@ == old(self).reservations@.skip(1)
                &&& spec_eq_except_reservations(*old(self), *final(self))
            },
    {
        if self.reservations.len() > 0 {
            let handle = self.reservations.remove(0);
            proof {
                assert(self.reservations@ =~= old(self).reservations@.skip(1));
            }
            Some(handle)
        } else {
            None
        }
    }

    /// The event an attribute purchase resumes with: the bought attribute
    /// on success, the purchase error otherwise. The pet tracks no
    /// per-purchase transaction id; the store owns purchase idempotency.
    pub fn purchase_event(success: bool, attribute_id: u32) -> (r: TmgEvent)
        ensures
            success ==> r == TmgEvent::AttributeBought(attribute_id),
            !success ==> r == TmgEvent::ErrorDuringPurchase,
    {
        if success {
            TmgEvent::AttributeBought(attribute_id)
        } else {
            TmgEvent::ErrorDuringPurchase
        }
    }
}

/// Every handled request keeps the pet well formed, so in particular each
/// vital level stays within `[0, MAX_LEVEL]`; applied step by step, this
/// bounds the vitals under any sequence of requests at non-decreasing
/// blocks.
pub proof fn lemma_handle_preserves_wf(pet: Tamagotchi, action: TmgAction, msg: MsgInfo)
    requires
        pet.wf(),
        pet.clock_ok(msg.block),
    ensures
        spec_handle_transition(pet, action, msg).wf(),
        spec_handle_transition(pet, action, msg).clock_ok(msg.block),
{
}

/// After a transfer the owner is the transferee, the operator is cleared,
/// and an immediately following owner query replies with the transferee.
pub proof fn lemma_transfer_then_owner(
    pet: Tamagotchi,
    new_owner: ActorId,
    msg: MsgInfo,
    msg2: MsgInfo,
)
    ensures
        spec_handle_transition(pet, TmgAction::Transfer(new_owner), msg).owner == new_owner,
        spec_handle_transition(pet, TmgAction::Transfer(new_owner), msg).allowed_account is None,
        spec_handle_outcome(
            spec_handle_transition(pet, TmgAction::Transfer(new_owner), msg),
            TmgAction::Owner,
            msg2,
            Outcome::Reply(TmgEvent::Owner { owner: new_owner }),
        ),
{
}

/// The transaction counter never decreases under any handled request, and
/// a token approval with no matching pending descriptor goes out under the
/// old counter value and strictly increases the counter.
pub proof fn lemma_tx_id_monotonic(pet: Tamagotchi, action: TmgAction, msg: MsgInfo)
    requires
        pet.ft_transaction_id < u64::MAX,
    ensures
        spec_handle_transition(pet, action, msg).ft_transaction_id >= pet.ft_transaction_id,
        (action matches TmgAction::ApproveTokens { account, amount }
            && pet.ft_contract_id != ActorId::spec_null()
            && !spec_matching_pending(pet, account, amount)) ==> {
            &&& spec_handle_transition(pet, action, msg).ft_transaction_id
                == pet.ft_transaction_id + 1
            &&& action matches TmgAction::ApproveTokens { account, amount } ==> spec_approve_tx_id(
                pet,
                account,
                amount,
            ) == pet.ft_transaction_id
        },
{
}

/// Two successive token approvals that each allocate a fresh transaction id
/// use strictly increasing ids.
pub proof fn lemma_tx_ids_strictly_increase(
    pet: Tamagotchi,
    account1: ActorId,
    amount1: u128,
    msg1: MsgInfo,
    account2: ActorId,
    amount2: u128,
)
    requires
        pet.ft_transaction_id < u64::MAX,
        pet.ft_contract_id != ActorId::spec_null(),
        !spec_matching_pending(pet, account1, amount1),
        !spec_matching_pending(
            spec_handle_transition(pet, TmgAction::ApproveTokens { account: account1, amount: amount1 }, msg1),
            account2,
            amount2,
        ),
    ensures
        spec_approve_tx_id(
            spec_handle_transition(pet, TmgAction::ApproveTokens { account: account1, amount: amount1 }, msg1),
            account2,
            amount2,
        ) > spec_approve_tx_id(pet, account1, amount1),
{
}

/// Re-issuing a token approval while a pending descriptor with the same
/// account and amount exists reuses its transaction id and leaves the whole
/// state, the pending descriptor included, unchanged.
pub proof fn lemma_approval_idempotent(
    pet: Tamagotchi,
    account: ActorId,
    amount: u128,
    msg: MsgInfo,
)
    requires
        pet.ft_contract_id != ActorId::spec_null(),
        spec_matching_pending(pet, account, amount),
    ensures
        spec_handle_transition(pet, TmgAction::ApproveTokens { account, amount }, msg) == pet,
        spec_approve_tx_id(pet, account, amount) == pet.approve_transaction.unwrap().0,
{
}

} // verus!

