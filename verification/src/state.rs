//! The pet record and the request / event vocabulary.

use crate::ids::{ActorId, ReservationId};
use crate::vitals::MAX_LEVEL;
use vstd::prelude::*;

verus! {

/// A request the pet can receive.
#[derive(Clone, Copy, Debug, PartialEq, Eq)]
pub enum TmgAction {
    Name,
    Age,
    Feed,
    Play,
    Sleep,
    Transfer(ActorId),
    Approve(ActorId),
    RevokeApproval,
    ApproveTokens { account: ActorId, amount: u128 },
    SetFTokenContract(ActorId),
    BuyAttribute { store_id: ActorId, attribute_id: u32 },
    CheckState,
    ReserveGas { reservation_amount: u64, duration: u32 },
    Owner,
}

/// An event the pet can emit in reply.
#[derive(Debug, PartialEq, Eq)]
pub enum TmgEvent {
    Name(String),
    Age(u64),
    Fed,
    Entertained,
    Slept,
    Transfer(ActorId),
    Approve(ActorId),
    RevokeApproval,
    ApproveTokens { account: ActorId, amount: u128 },
    ApprovalError,
    SetFTokenContract,
    AttributeBought(u32),
    CompletePrevPurchase(u32),
    ErrorDuringPurchase,
    FeedMe,
    PlayWithMe,
    WantToSleep,
    MakeReservation,
    GasReserved,
    Owner { owner: ActorId },
}

/// The singleton pet state.
pub struct Tamagotchi {
    /// Free-form text, set once at init, immutable thereafter.
    pub name: String,
    /// The block timestamp captured at init.
    pub date_of_birth: u64,
    /// The current owner; changes only through `Transfer`.
    pub owner: ActorId,
    /// Fullness level and the block it was last updated at.
    pub fed: u64,
    pub fed_block: u64,
    /// Entertainment level and the block it was last updated at.
    pub entertained: u64,
    pub entertained_block: u64,
    /// Rest level and the block it was last updated at.
    pub rested: u64,
    pub rested_block: u64,
    /// The delegated operator, if any.
    pub allowed_account: Option<ActorId>,
    /// The bound fungible-token actor; the null identity until set.
    pub ft_contract_id: ActorId,
    /// The next transaction id to hand to the token actor; never decreases.
    pub ft_transaction_id: u64,
    /// An issued but unconfirmed token approval: `(tx_id, account, amount)`.
    pub approve_transaction: Option<(u64, ActorId, u128)>,
    /// Pre-purchased gas reservations, consumed front first.
    pub reservations: Vec<ReservationId>,
}

impl Tamagotchi {
    /// Well-formedness: the name is non-empty and every vital level is
    /// within `[0, MAX_LEVEL]`.
    pub open spec fn wf(self) -> bool {
        &&& self.name@.len() > 0
        &&& self.fed <= MAX_LEVEL
        &&& self.entertained <= MAX_LEVEL
        &&& self.rested <= MAX_LEVEL
    }

    /// The host clock never runs behind a vital's last update: each
    /// `last_updated_block` is at most the current block timestamp.
    pub open spec fn clock_ok(self, now: u64) -> bool {
        &&& self.fed_block <= now
        &&& self.entertained_block <= now
        &&& self.rested_block <= now
    }
}

} // verus!
