//! The safety laws of the sale saga, stated over the step relations that
//! the ledger's operations ensure, and proved once and for all.

use vstd::prelude::*;
use crate::ids::spec_ticket_id;
use crate::state::callback_step;
use crate::state::confirmed_count;
use crate::state::game_index;
use crate::state::has_info;
use crate::state::has_pending;
use crate::state::has_ticket;
use crate::state::info_of;
use crate::state::infos_unique;
use crate::state::lemma_game_index;
use crate::state::lemma_info_point_update;
use crate::state::lemma_pending_index;
use crate::state::lemma_ticket_index;
use crate::state::lemma_tt_index;
use crate::state::next_of;
use crate::state::pending_index;
use crate::state::purchase_ok;
use crate::state::purchase_outcome;
use crate::state::redeem_outcome;
use crate::state::redeem_step;
use crate::state::reserve_ok;
use crate::state::sold_of;
use crate::state::start_of;
use crate::state::supply_of;
use crate::state::the_game;
use crate::state::the_ticket;
use crate::state::ticket_index;
use crate::state::tt_index;
use crate::state::unit_price_of;
use crate::state::wf;
use crate::types::Contract;
use crate::types::PurchaseReceipt;
use crate::types::RefundAction;
use crate::types::SaleError;
use crate::types::TicketStatus;

verus! {

/// Supply invariant: in every well-formed state, a ticket type's `sold`
/// count never exceeds its supply, and the number of confirmed tickets
/// never exceeds its supply either.
pub proof fn lemma_supply_invariant(c: Contract, g: Seq<char>, t: Seq<char>)
    requires
        wf(c),
        has_info(c.games@, g, t),
    ensures
        sold_of(c.games@, g, t) <= supply_of(c.games@, g, t),
        confirmed_count(c.tickets@, g, t) <= supply_of(c.games@, g, t),
{
    lemma_game_index(c.games@, g);
    let gi = game_index(c.games@, g);
    assert(infos_unique(c.games@[gi].ticket_infos@));
    lemma_tt_index(c.games@[gi].ticket_infos@, t);
    let ti = tt_index(c.games@[gi].ticket_infos@, t);
    assert(c.games@[gi].ticket_infos@[ti] == info_of(c.games@, g, t));
}

/// No double-reservation: two successful `reserve` calls on the same
/// ticket type never hand out the same reservation index — the second
/// call's index is exactly one past the first's.
pub proof fn lemma_no_double_reservation(
    c0: Contract,
    c1: Contract,
    c2: Contract,
    g: Seq<char>,
    t: Seq<char>,
    now1: u64,
    now2: u64,
    i: u64,
    j: u64,
)
    requires
        wf(c0),
        reserve_ok(c0, c1, g, t, now1, i),
        reserve_ok(c1, c2, g, t, now2, j),
    ensures
        j == i + 1,
        i != j,
{
    lemma_info_point_update(c0.games@, c1.games@, g, t);
    assert(info_of(c1.games@, g, t).next_index == i + 1);
}

/// Compensation correctness: when issuance fails after a successful
/// purchase, the callback returns `sold` to its pre-reservation value,
/// owes the buyer exactly the recorded payment back, and leaves the
/// compensated entry in the log while the reservation index is retired
/// for good — so the ticket id is never handed out again.
pub proof fn lemma_compensation(
    c0: Contract,
    c1: Contract,
    c2: Contract,
    g: Seq<char>,
    t: Seq<char>,
    buyer: Seq<char>,
    payment: u128,
    now: u64,
    receipt: PurchaseReceipt,
    refund: RefundAction,
)
    requires
        wf(c0),
        wf(c1),
        purchase_ok(c0, c1, g, t, buyer, payment, now, receipt),
        callback_step(
            c1,
            c2,
            receipt.ticket_id@,
            false,
            Ok(Some(refund)),
        ),
    ensures
        sold_of(c2.games@, g, t) == sold_of(c0.games@, g, t),
        refund.buyer@ == buyer,
        refund.amount == payment,
        has_ticket(c2.tickets@, receipt.ticket_id@),
        the_ticket(c2.tickets@, receipt.ticket_id@).status == TicketStatus::Compensated,
        next_of(c2.games@, g, t) == next_of(c0.games@, g, t) + 1,
{
    let id = receipt.ticket_id@;
    let pn = c1.pending@.len() - 1;
    assert(c1.pending@[pn].ticket_id@ == id);
    assert(has_pending(c1.pending@, id));
    lemma_pending_index(c1.pending@, id);
    let k = pending_index(c1.pending@, id);
    assert(k == pn);
    let p = c1.pending@[k];
    assert(p.game_id@ == g && p.ticket_type@ == t && p.buyer@ == buyer && p.payment == payment);
    let tn = c1.tickets@.len() - 1;
    assert(c1.tickets@[tn].ticket_id@ == id);
    assert(has_ticket(c1.tickets@, id));
    lemma_ticket_index(c1.tickets@, id);
    let m = ticket_index(c1.tickets@, id);
    assert(m == tn);
    assert(c2.tickets@[m].ticket_id@ == id);
    assert(c2.tickets@[m].status == TicketStatus::Compensated);
    assert(has_ticket(c2.tickets@, id));
    // c2's lookup of the id lands on the same entry
    assert forall|k2: int| 0 <= k2 < c2.tickets@.len() && k2 != m
        implies (#[trigger] c2.tickets@[k2]).ticket_id@ != id by {
        assert(c2.tickets@[k2] == c1.tickets@[k2]);
        assert(c1.tickets@[k2].ticket_id@ != id);
    };
    let m2 = ticket_index(c2.tickets@, id);
    assert(0 <= m2 < c2.tickets@.len() && c2.tickets@[m2].ticket_id@ == id);
    assert(m2 == m);
    // the two counter moves cancel
    lemma_info_point_update(c0.games@, c1.games@, g, t);
    assert(sold_of(c1.games@, g, t) == sold_of(c0.games@, g, t) + 1);
    assert(next_of(c1.games@, g, t) == next_of(c0.games@, g, t) + 1);
    lemma_info_point_update(c1.games@, c2.games@, g, t);
    assert(sold_of(c2.games@, g, t) == sold_of(c1.games@, g, t) - 1);
    assert(next_of(c2.games@, g, t) == next_of(c1.games@, g, t));
}

/// A ticket id that is already in the settlement log — confirmed,
/// pending or compensated — is never issued again by a later purchase.
pub proof fn lemma_ticket_id_not_reused(
    c: Contract,
    c2: Contract,
    g: Seq<char>,
    t: Seq<char>,
    buyer: Seq<char>,
    payment: u128,
    now: u64,
    receipt: PurchaseReceipt,
    id: Seq<char>,
)
    requires
        has_ticket(c.tickets@, id),
        purchase_ok(c, c2, g, t, buyer, payment, now, receipt),
    ensures
        receipt.ticket_id@ != id,
{
    assert(!has_ticket(c.tickets@, spec_ticket_id(g, t, next_of(c.games@, g, t) as nat)));
}

/// Redemption idempotence: after a successful redemption, the same
/// redemption attempted again fails with `AlreadyUsed` and changes
/// nothing.
pub proof fn lemma_redemption_idempotent(
    c0: Contract,
    c1: Contract,
    c2: Contract,
    id: Seq<char>,
    caller: Seq<char>,
    owner: Option<Seq<char>>,
    r2: Result<(), SaleError>,
)
    requires
        wf(c0),
        redeem_step(c0, c1, id, caller, owner, Ok(())),
        redeem_step(c1, c2, id, caller, owner, r2),
    ensures
        r2 == Result::<(), SaleError>::Err(SaleError::AlreadyUsed),
        c2 == c1,
{
    assert(redeem_outcome(c0, id, caller, owner) is None);
    lemma_ticket_index(c0.tickets@, id);
    let m = ticket_index(c0.tickets@, id);
    assert(c1.tickets@[m].ticket_id@ == id);
    assert(c1.tickets@[m].status == TicketStatus::Confirmed);
    assert(c1.tickets@[m].is_used);
    assert(has_ticket(c1.tickets@, id));
    assert forall|k2: int| 0 <= k2 < c1.tickets@.len() && k2 != m
        implies (#[trigger] c1.tickets@[k2]).ticket_id@ != id by {
        assert(c1.tickets@[k2] == c0.tickets@[k2]);
        assert(c0.tickets@[k2].ticket_id@ != id);
    };
    let m2 = ticket_index(c1.tickets@, id);
    assert(0 <= m2 < c1.tickets@.len() && c1.tickets@[m2].ticket_id@ == id);
    assert(m2 == m);
    assert(redeem_outcome(c1, id, caller, owner) == Some(SaleError::AlreadyUsed));
}

/// Price enforcement: a purchase whose payment sits below the stored unit
/// price is always refused with `InsufficientPayment`; by `buy_ticket`'s
/// contract such a refusal mutates nothing.
pub proof fn lemma_price_enforcement(
    c: Contract,
    g: Seq<char>,
    t: Seq<char>,
    payment: u128,
    now: u64,
)
    requires
        wf(c),
        has_info(c.games@, g, t),
        now >= start_of(c.games@, g),
        sold_of(c.games@, g, t) < supply_of(c.games@, g, t),
        payment < unit_price_of(c.games@, g, t),
    ensures
        purchase_outcome(c, g, t, payment, now) == Some(SaleError::InsufficientPayment),
{
}

} // verus!

