//! The data the ledger holds: games, their ticket types, issued tickets,
//! pending purchase contexts, and the error taxonomy of the sale flow.

use vstd::prelude::*;

verus! {

/// Fixed issuance fee, in minor units, baked into each stored unit price
/// when a game is created.
pub const MINT_FEE: u128 = 10_000_000_000_000_000_000_000;

/// Minor units per whole currency unit: game creation takes prices in whole
/// units and stores them in minor units.
pub const UNIT_SCALE: u128 = 1_000_000_000_000_000_000_000_000;

/// Largest whole-unit price accepted at game creation; keeps the stored
/// minor-unit price within `u128`.
pub const MAX_UNIT_PRICE: u128 = 100_000_000_000_000;

/// Why a call of the sale flow was refused.
#[derive(Clone, Copy, PartialEq, Eq, Structural, Debug)]
pub enum SaleError {
    /// The game, ticket type or ticket does not exist.
    NotFound,
    /// The caller is not the operator, or not the ticket's owner.
    Unauthorized,
    /// The game has not started selling tickets yet.
    SaleNotStarted,
    /// No unit of this ticket type is left to reserve.
    SoldOut,
    /// The attached payment is below the stored unit price.
    InsufficientPayment,
    /// The ticket was already redeemed.
    AlreadyUsed,
    /// The caller does not own the ticket.
    NotOwner,
}

/// Where a settlement-log entry stands in the saga.
#[derive(Clone, Copy, PartialEq, Eq, Structural, Debug)]
pub enum TicketStatus {
    /// Issuance was requested; the outcome has not been reported yet.
    Pending,
    /// Issuance succeeded; the ticket is valid and redeemable.
    Confirmed,
    /// Issuance failed; the reserved unit was released and the payment
    /// refunded. The entry stays so its ticket id is never reused.
    Compensated,
}

/// Catalog-level metadata of the whole ledger.
pub struct MeowRushContractMetadata {
    pub spec_version: String,
    pub name: String,
    pub symbol: String,
    pub description: Option<String>,
}

/// A priced, supply-capped class of tickets within a game.
pub struct TicketInfo {
    pub supply: u32,
    pub ticket_type: String,
    /// Unit price in minor units, issuance fee included.
    pub price: u128,
    /// Units currently reserved or sold; released by compensation.
    pub sold: u32,
    pub selling_start_time: Option<u64>,
    /// The next reservation index to hand out. Never decreases, so a
    /// compensated reservation leaves a permanently skipped index.
    pub next_index: u64,
}

/// A sellable event with one or more ticket types.
pub struct GameMetadata {
    pub game_id: String,
    pub game_title: Option<String>,
    pub game_description: Option<String>,
    pub ticket_infos: Vec<TicketInfo>,
    pub game_banner: Option<String>,
    pub selling_start_time: u64,
}

/// A settlement-log entry: the durable record an issued ticket resolves to.
pub struct TicketMetadata {
    pub ticket_id: String,
    pub game_id: String,
    pub ticket_type: String,
    pub is_used: bool,
    pub issued_at: u64,
    pub status: TicketStatus,
    /// Filled only by the metadata read; stored entries keep `None`.
    pub game: Option<GameMetadata>,
}

/// The pending context of one purchase, recorded between the issuance
/// request and its callback, keyed by the deterministic ticket id.
pub struct PendingPurchase {
    pub ticket_id: String,
    pub game_id: String,
    pub ticket_type: String,
    pub buyer: String,
    pub payment: u128,
}

/// What a successful purchase hands back: the id to mint and the
/// reservation index it was derived from.
pub struct PurchaseReceipt {
    pub ticket_id: String,
    pub reservation_index: u64,
}

/// The compensation a failed issuance owes: return `amount` to `buyer`.
pub struct RefundAction {
    pub buyer: String,
    pub amount: u128,
}

/// The whole ledger: catalog, settlement log and pending saga contexts.
pub struct Contract {
    pub owner_id: String,
    pub metadata: MeowRushContractMetadata,
    pub games: Vec<GameMetadata>,
    pub tickets: Vec<TicketMetadata>,
    pub pending: Vec<PendingPurchase>,
}

} // verus!
