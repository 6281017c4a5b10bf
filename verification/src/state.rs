//! The mathematical model of the ledger: lookups over the catalog, the
//! settlement log and the pending contexts, counting, and the
//! well-formedness invariant every operation preserves.

use vstd::prelude::*;
use crate::ids::spec_ticket_id;
use crate::types::Contract;
use crate::types::GameMetadata;
use crate::types::PendingPurchase;
use crate::types::PurchaseReceipt;
use crate::types::RefundAction;
use crate::types::SaleError;
use crate::types::TicketInfo;
use crate::types::TicketMetadata;
use crate::types::TicketStatus;

verus! {

// ---------------------------------------------------------------------------
// Lookups. Keys are unique under `wf`, so `choose` picks the one witness.
// ---------------------------------------------------------------------------

pub open spec fn has_game(games: Seq<GameMetadata>, gid: Seq<char>) -> bool {
    exists|i: int| #![trigger games[i]] 0 <= i < games.len() && games[i].game_id@ == gid
}

pub open spec fn game_index(games: Seq<GameMetadata>, gid: Seq<char>) -> int {
    choose|i: int| #![trigger games[i]] 0 <= i < games.len() && games[i].game_id@ == gid
}

pub open spec fn the_game(games: Seq<GameMetadata>, gid: Seq<char>) -> GameMetadata {
    games[game_index(games, gid)]
}

pub open spec fn has_tt(infos: Seq<TicketInfo>, t: Seq<char>) -> bool {
    exists|j: int| #![trigger infos[j]] 0 <= j < infos.len() && infos[j].ticket_type@ == t
}

pub open spec fn tt_index(infos: Seq<TicketInfo>, t: Seq<char>) -> int {
    choose|j: int| #![trigger infos[j]] 0 <= j < infos.len() && infos[j].ticket_type@ == t
}

pub open spec fn the_info(infos: Seq<TicketInfo>, t: Seq<char>) -> TicketInfo {
    infos[tt_index(infos, t)]
}

/// The game and the ticket type both exist.
pub open spec fn has_info(games: Seq<GameMetadata>, g: Seq<char>, t: Seq<char>) -> bool {
    has_game(games, g) && has_tt(the_game(games, g).ticket_infos@, t)
}

pub open spec fn info_of(games: Seq<GameMetadata>, g: Seq<char>, t: Seq<char>) -> TicketInfo {
    the_info(the_game(games, g).ticket_infos@, t)
}

pub open spec fn sold_of(games: Seq<GameMetadata>, g: Seq<char>, t: Seq<char>) -> u32 {
    info_of(games, g, t).sold
}

pub open spec fn supply_of(games: Seq<GameMetadata>, g: Seq<char>, t: Seq<char>) -> u32 {
    info_of(games, g, t).supply
}

pub open spec fn next_of(games: Seq<GameMetadata>, g: Seq<char>, t: Seq<char>) -> u64 {
    info_of(games, g, t).next_index
}

pub open spec fn unit_price_of(games: Seq<GameMetadata>, g: Seq<char>, t: Seq<char>) -> u128 {
    info_of(games, g, t).price
}

/// When the game starts selling tickets.
pub open spec fn start_of(games: Seq<GameMetadata>, g: Seq<char>) -> u64 {
    the_game(games, g).selling_start_time
}

pub open spec fn has_ticket(tickets: Seq<TicketMetadata>, id: Seq<char>) -> bool {
    exists|i: int| #![trigger tickets[i]] 0 <= i < tickets.len() && tickets[i].ticket_id@ == id
}

pub open spec fn ticket_index(tickets: Seq<TicketMetadata>, id: Seq<char>) -> int {
    choose|i: int| #![trigger tickets[i]] 0 <= i < tickets.len() && tickets[i].ticket_id@ == id
}

pub open spec fn the_ticket(tickets: Seq<TicketMetadata>, id: Seq<char>) -> TicketMetadata {
    tickets[ticket_index(tickets, id)]
}

pub open spec fn has_pending(pending: Seq<PendingPurchase>, id: Seq<char>) -> bool {
    exists|i: int| #![trigger pending[i]] 0 <= i < pending.len() && pending[i].ticket_id@ == id
}

pub open spec fn pending_index(pending: Seq<PendingPurchase>, id: Seq<char>) -> int {
    choose|i: int| #![trigger pending[i]] 0 <= i < pending.len() && pending[i].ticket_id@ == id
}

// ---------------------------------------------------------------------------
// Key uniqueness.
// ---------------------------------------------------------------------------

pub open spec fn games_unique(games: Seq<GameMetadata>) -> bool {
    forall|i: int, j: int| #![trigger games[i], games[j]]
        0 <= i < games.len() && 0 <= j < games.len() && i != j
            ==> games[i].game_id@ != games[j].game_id@
}

pub open spec fn infos_unique(infos: Seq<TicketInfo>) -> bool {
    forall|i: int, j: int| #![trigger infos[i], infos[j]]
        0 <= i < infos.len() && 0 <= j < infos.len() && i != j
            ==> infos[i].ticket_type@ != infos[j].ticket_type@
}

pub open spec fn tickets_unique(tickets: Seq<TicketMetadata>) -> bool {
    forall|i: int, j: int| #![trigger tickets[i], tickets[j]]
        0 <= i < tickets.len() && 0 <= j < tickets.len() && i != j
            ==> tickets[i].ticket_id@ != tickets[j].ticket_id@
}

pub open spec fn pending_unique(pending: Seq<PendingPurchase>) -> bool {
    forall|i: int, j: int| #![trigger pending[i], pending[j]]
        0 <= i < pending.len() && 0 <= j < pending.len() && i != j
            ==> pending[i].ticket_id@ != pending[j].ticket_id@
}

// ---------------------------------------------------------------------------
// Counting.
// ---------------------------------------------------------------------------

/// How many elements of `s` satisfy `p`.
pub open spec fn count_where<T>(s: Seq<T>, p: spec_fn(T) -> bool) -> nat
    decreases s.len(),
{
    if s.len() == 0 {
        0
    } else {
        count_where(s.drop_last(), p) + (if p(s.last()) { 1nat } else { 0nat })
    }
}

/// Is this a confirmed settlement entry of `(g, t)`?
pub open spec fn confirmed_pred(g: Seq<char>, t: Seq<char>) -> spec_fn(TicketMetadata) -> bool {
    |e: TicketMetadata| e.game_id@ == g && e.ticket_type@ == t && e.status
        == TicketStatus::Confirmed
}

/// Is this an in-flight purchase of `(g, t)`?
pub open spec fn pending_pred(g: Seq<char>, t: Seq<char>) -> spec_fn(PendingPurchase) -> bool {
    |p: PendingPurchase| p.game_id@ == g && p.ticket_type@ == t
}

/// Settlement-log entries of `(g, t)` whose issuance was confirmed.
pub open spec fn confirmed_count(tickets: Seq<TicketMetadata>, g: Seq<char>, t: Seq<char>) -> nat {
    count_where(tickets, confirmed_pred(g, t))
}

/// Purchases of `(g, t)` whose callback has not arrived yet.
pub open spec fn pending_count(pending: Seq<PendingPurchase>, g: Seq<char>, t: Seq<char>) -> nat {
    count_where(pending, pending_pred(g, t))
}

// ---------------------------------------------------------------------------
// The invariant.
// ---------------------------------------------------------------------------

/// Every ledger operation takes a well-formed contract to a well-formed one:
/// keys are unique; `sold` never exceeds `supply`; every pending context
/// points at an existing ticket type and at a `Pending` settlement entry of
/// its own ticket id; every settlement entry points at an existing ticket
/// type; and per ticket type, confirmed tickets plus in-flight purchases
/// never exceed `sold` — so confirmed tickets never exceed `supply`.
pub open spec fn wf(c: Contract) -> bool {
    &&& games_unique(c.games@)
    &&& forall|i: int| #![trigger c.games@[i]]
        0 <= i < c.games@.len() ==> infos_unique(c.games@[i].ticket_infos@)
    &&& forall|i: int, j: int| #![trigger c.games@[i].ticket_infos@[j]]
        0 <= i < c.games@.len() && 0 <= j < c.games@[i].ticket_infos@.len()
            ==> c.games@[i].ticket_infos@[j].sold <= c.games@[i].ticket_infos@[j].supply
    &&& tickets_unique(c.tickets@)
    &&& pending_unique(c.pending@)
    &&& forall|k: int| #![trigger c.pending@[k]]
        0 <= k < c.pending@.len() ==> {
            let p = c.pending@[k];
            &&& has_info(c.games@, p.game_id@, p.ticket_type@)
            &&& has_ticket(c.tickets@, p.ticket_id@)
            &&& the_ticket(c.tickets@, p.ticket_id@).status == TicketStatus::Pending
            &&& the_ticket(c.tickets@, p.ticket_id@).game_id@ == p.game_id@
            &&& the_ticket(c.tickets@, p.ticket_id@).ticket_type@ == p.ticket_type@
        }
    &&& forall|k: int| #![trigger c.tickets@[k]]
        0 <= k < c.tickets@.len()
            ==> has_info(c.games@, c.tickets@[k].game_id@, c.tickets@[k].ticket_type@)
    &&& forall|i: int, j: int| #![trigger c.games@[i].ticket_infos@[j]]
        0 <= i < c.games@.len() && 0 <= j < c.games@[i].ticket_infos@.len() ==> {
            let g = c.games@[i].game_id@;
            let t = c.games@[i].ticket_infos@[j].ticket_type@;
            confirmed_count(c.tickets@, g, t) + pending_count(c.pending@, g, t)
                <= c.games@[i].ticket_infos@[j].sold
        }
}

// ---------------------------------------------------------------------------
// The unique witness behind each `choose`.
// ---------------------------------------------------------------------------

pub proof fn lemma_game_index(games: Seq<GameMetadata>, gid: Seq<char>)
    requires
        games_unique(games),
        has_game(games, gid),
    ensures
        0 <= game_index(games, gid) < games.len(),
        games[game_index(games, gid)].game_id@ == gid,
        forall|k: int| #![trigger games[k]]
            0 <= k < games.len() && games[k].game_id@ == gid ==> k == game_index(games, gid),
{
    let i = choose|i: int| #![trigger games[i]] 0 <= i < games.len() && games[i].game_id@ == gid;
    assert(0 <= i < games.len() && games[i].game_id@ == gid);
}

pub proof fn lemma_tt_index(infos: Seq<TicketInfo>, t: Seq<char>)
    requires
        infos_unique(infos),
        has_tt(infos, t),
    ensures
        0 <= tt_index(infos, t) < infos.len(),
        infos[tt_index(infos, t)].ticket_type@ == t,
        forall|k: int| #![trigger infos[k]]
            0 <= k < infos.len() && infos[k].ticket_type@ == t ==> k == tt_index(infos, t),
{
    let i = choose|j: int| #![trigger infos[j]] 0 <= j < infos.len() && infos[j].ticket_type@ == t;
    assert(0 <= i < infos.len() && infos[i].ticket_type@ == t);
}

pub proof fn lemma_ticket_index(tickets: Seq<TicketMetadata>, id: Seq<char>)
    requires
        tickets_unique(tickets),
        has_ticket(tickets, id),
    ensures
        0 <= ticket_index(tickets, id) < tickets.len(),
        tickets[ticket_index(tickets, id)].ticket_id@ == id,
        forall|k: int| #![trigger tickets[k]]
            0 <= k < tickets.len() && tickets[k].ticket_id@ == id ==> k == ticket_index(tickets, id),
{
    let i = choose|i: int| #![trigger tickets[i]]
        0 <= i < tickets.len() && tickets[i].ticket_id@ == id;
    assert(0 <= i < tickets.len() && tickets[i].ticket_id@ == id);
}

pub proof fn lemma_pending_index(pending: Seq<PendingPurchase>, id: Seq<char>)
    requires
        pending_unique(pending),
        has_pending(pending, id),
    ensures
        0 <= pending_index(pending, id) < pending.len(),
        pending[pending_index(pending, id)].ticket_id@ == id,
        forall|k: int| #![trigger pending[k]]
            0 <= k < pending.len() && pending[k].ticket_id@ == id
                ==> k == pending_index(pending, id),
{
    let i = choose|i: int| #![trigger pending[i]]
        0 <= i < pending.len() && pending[i].ticket_id@ == id;
    assert(0 <= i < pending.len() && pending[i].ticket_id@ == id);
}

// ---------------------------------------------------------------------------
// How counting behaves under push, point update and removal.
// ---------------------------------------------------------------------------

pub proof fn lemma_count_push<T>(s: Seq<T>, p: spec_fn(T) -> bool, x: T)
    ensures
        count_where(s.push(x), p) == count_where(s, p) + (if p(x) {
            1nat
        } else {
            0nat
        }),
{
    assert(s.push(x).drop_last() =~= s);
    assert(s.push(x).last() == x);
}

pub proof fn lemma_count_update<T>(s: Seq<T>, p: spec_fn(T) -> bool, i: int, x: T)
    requires
        0 <= i < s.len(),
    ensures
        count_where(s.update(i, x), p) + (if p(s[i]) {
            1nat
        } else {
            0nat
        }) == count_where(s, p) + (if p(x) {
            1nat
        } else {
            0nat
        }),
    decreases s.len(),
{
    let su = s.update(i, x);
    if i == s.len() - 1 {
        assert(su.drop_last() =~= s.drop_last());
        assert(su.last() == x);
    } else {
        assert(su.drop_last() =~= s.drop_last().update(i, x));
        assert(su.last() == s.last());
        lemma_count_update(s.drop_last(), p, i, x);
    }
}

pub proof fn lemma_count_remove<T>(s: Seq<T>, p: spec_fn(T) -> bool, i: int)
    requires
        0 <= i < s.len(),
    ensures
        count_where(s.remove(i), p) + (if p(s[i]) {
            1nat
        } else {
            0nat
        }) == count_where(s, p),
    decreases s.len(),
{
    let sr = s.remove(i);
    if i == s.len() - 1 {
        assert(sr =~= s.drop_last());
    } else {
        assert(sr.drop_last() =~= s.drop_last().remove(i));
        assert(sr.last() == s.last());
        lemma_count_remove(s.drop_last(), p, i);
    }
}

// ---------------------------------------------------------------------------
// Lookups are stable when keys are kept.
// ---------------------------------------------------------------------------

/// `b` has the same game ids, and per game the same ticket types, as `a`:
/// then every lookup lands on the same index in both.
pub proof fn lemma_lookups_preserved(a: Seq<GameMetadata>, b: Seq<GameMetadata>)
    requires
        games_unique(a),
        forall|k: int| #![trigger a[k]] 0 <= k < a.len() ==> infos_unique(a[k].ticket_infos@),
        b.len() == a.len(),
        forall|k: int| #![trigger b[k]]
            0 <= k < a.len() ==> b[k].game_id@ == a[k].game_id@
                && b[k].ticket_infos@.len() == a[k].ticket_infos@.len(),
        forall|k: int, j: int| #![trigger b[k].ticket_infos@[j]]
            0 <= k < a.len() && 0 <= j < a[k].ticket_infos@.len()
                ==> b[k].ticket_infos@[j].ticket_type@ == a[k].ticket_infos@[j].ticket_type@,
    ensures
        games_unique(b),
        forall|k: int| #![trigger b[k]] 0 <= k < b.len() ==> infos_unique(b[k].ticket_infos@),
        forall|g: Seq<char>| #![trigger has_game(b, g)] has_game(b, g) == has_game(a, g),
        forall|g: Seq<char>| #![trigger game_index(b, g)]
            has_game(a, g) ==> game_index(b, g) == game_index(a, g),
        forall|g: Seq<char>, t: Seq<char>| #![trigger has_info(b, g, t)]
            has_info(b, g, t) == has_info(a, g, t),
        forall|g: Seq<char>, t: Seq<char>| #![trigger tt_index(the_game(b, g).ticket_infos@, t)]
            has_info(a, g, t) ==> tt_index(the_game(b, g).ticket_infos@, t) == tt_index(
                the_game(a, g).ticket_infos@,
                t,
            ),
{
    assert forall|g: Seq<char>| #[trigger] has_game(b, g) == has_game(a, g) by {
        if has_game(a, g) {
            let i = game_index(a, g);
            lemma_game_index(a, g);
            assert(b[i].game_id@ == g);
        }
        if has_game(b, g) {
            let i = choose|i: int| #![trigger b[i]] 0 <= i < b.len() && b[i].game_id@ == g;
            assert(a[i].game_id@ == g);
        }
    };
    assert forall|g: Seq<char>| has_game(a, g) implies #[trigger] game_index(b, g) == game_index(
        a,
        g,
    ) by {
        let i = game_index(a, g);
        lemma_game_index(a, g);
        assert(b[i].game_id@ == g);
        let i2 = game_index(b, g);
        assert(0 <= i2 < b.len() && b[i2].game_id@ == g);
        assert(a[i2].game_id@ == g);
    };
    assert forall|g: Seq<char>, t: Seq<char>| #[trigger] has_info(b, g, t) == has_info(a, g, t) by {
        if has_game(a, g) {
            let i = game_index(a, g);
            lemma_game_index(a, g);
            let ia = a[i].ticket_infos@;
            let ib = b[i].ticket_infos@;
            if has_tt(ia, t) {
                let j = tt_index(ia, t);
                lemma_tt_index(ia, t);
                assert(ib[j].ticket_type@ == t);
            }
            if has_tt(ib, t) {
                let j = choose|j: int| #![trigger ib[j]] 0 <= j < ib.len() && ib[j].ticket_type@
                    == t;
                assert(ia[j].ticket_type@ == t);
            }
        }
    };
    assert forall|g: Seq<char>, t: Seq<char>| has_info(a, g, t) implies #[trigger] tt_index(
        the_game(b, g).ticket_infos@,
        t,
    ) == tt_index(the_game(a, g).ticket_infos@, t) by {
        let i = game_index(a, g);
        lemma_game_index(a, g);
        let ia = a[i].ticket_infos@;
        let ib = b[i].ticket_infos@;
        let j = tt_index(ia, t);
        lemma_tt_index(ia, t);
        assert(ib[j].ticket_type@ == t);
        assert(has_tt(ib, t));
        let j2 = tt_index(ib, t);
        assert(0 <= j2 < ib.len() && ib[j2].ticket_type@ == t);
        assert(ia[j2].ticket_type@ == t);
    };
}

// ---------------------------------------------------------------------------
// The saga's step relations: what each operation does to the state.
// ---------------------------------------------------------------------------

/// `b` is `a` with every field kept but the ticket types.
pub open spec fn same_except_infos(a: GameMetadata, b: GameMetadata) -> bool {
    &&& b.game_id == a.game_id
    &&& b.game_title == a.game_title
    &&& b.game_description == a.game_description
    &&& b.game_banner == a.game_banner
    &&& b.selling_start_time == a.selling_start_time
}

/// `b` agrees with `a` everywhere but possibly at index `i`.
pub open spec fn seq_update_at<T>(a: Seq<T>, b: Seq<T>, i: int) -> bool {
    &&& b.len() == a.len()
    &&& forall|k: int| #![trigger a[k]] #![trigger b[k]]
        0 <= k < a.len() && k != i ==> b[k] == a[k]
}

/// One unit reserved: `sold` and `next_index` step up, all else is kept.
pub open spec fn info_reserved(o: TicketInfo, n: TicketInfo) -> bool {
    &&& n.supply == o.supply
    &&& n.ticket_type == o.ticket_type
    &&& n.price == o.price
    &&& n.selling_start_time == o.selling_start_time
    &&& n.sold == o.sold + 1
    &&& n.next_index == o.next_index + 1
}

/// One unit released by compensation: `sold` steps back down, but
/// `next_index` stays, so the failed reservation's index is retired.
pub open spec fn info_released(o: TicketInfo, n: TicketInfo) -> bool {
    &&& n.supply == o.supply
    &&& n.ticket_type == o.ticket_type
    &&& n.price == o.price
    &&& n.selling_start_time == o.selling_start_time
    &&& n.sold == o.sold - 1
    &&& n.next_index == o.next_index
}

pub open spec fn games_reserved(
    a: Seq<GameMetadata>,
    b: Seq<GameMetadata>,
    g: Seq<char>,
    t: Seq<char>,
) -> bool {
    let gi = game_index(a, g);
    let og = a[gi];
    let ti = tt_index(og.ticket_infos@, t);
    &&& seq_update_at(a, b, gi)
    &&& same_except_infos(og, b[gi])
    &&& seq_update_at(og.ticket_infos@, b[gi].ticket_infos@, ti)
    &&& info_reserved(og.ticket_infos@[ti], b[gi].ticket_infos@[ti])
}

pub open spec fn games_released(
    a: Seq<GameMetadata>,
    b: Seq<GameMetadata>,
    g: Seq<char>,
    t: Seq<char>,
) -> bool {
    let gi = game_index(a, g);
    let og = a[gi];
    let ti = tt_index(og.ticket_infos@, t);
    &&& seq_update_at(a, b, gi)
    &&& same_except_infos(og, b[gi])
    &&& seq_update_at(og.ticket_infos@, b[gi].ticket_infos@, ti)
    &&& info_released(og.ticket_infos@[ti], b[gi].ticket_infos@[ti])
}

/// Which error `reserve` returns, if any: the authoritative checks, in order.
pub open spec fn reserve_outcome(
    c: Contract,
    g: Seq<char>,
    t: Seq<char>,
    now: u64,
) -> Option<SaleError> {
    if !has_info(c.games@, g, t) {
        Some(SaleError::NotFound)
    } else if now < start_of(c.games@, g) {
        Some(SaleError::SaleNotStarted)
    } else if sold_of(c.games@, g, t) >= supply_of(c.games@, g, t) || next_of(c.games@, g, t)
        == u64::MAX {
        Some(SaleError::SoldOut)
    } else {
        None
    }
}

/// A successful reservation: the returned index is the pre-increment
/// `next_index`, and exactly this type's counters step up.
pub open spec fn reserve_ok(
    pre: Contract,
    post: Contract,
    g: Seq<char>,
    t: Seq<char>,
    now: u64,
    idx: u64,
) -> bool {
    &&& reserve_outcome(pre, g, t, now) is None
    &&& idx == next_of(pre.games@, g, t)
    &&& games_reserved(pre.games@, post.games@, g, t)
    &&& post.tickets == pre.tickets
    &&& post.pending == pre.pending
    &&& post.owner_id == pre.owner_id
    &&& post.metadata == pre.metadata
}

/// A compensation release: exactly this type's `sold` steps back down.
pub open spec fn release_ok(pre: Contract, post: Contract, g: Seq<char>, t: Seq<char>) -> bool {
    &&& games_released(pre.games@, post.games@, g, t)
    &&& post.tickets == pre.tickets
    &&& post.pending == pre.pending
    &&& post.owner_id == pre.owner_id
    &&& post.metadata == pre.metadata
}

/// Which error a purchase returns, if any: the validation order of the
/// sale flow. The two late `SoldOut` cases guard machine limits: an
/// exhausted index space, and a ticket id that already exists.
pub open spec fn purchase_outcome(
    c: Contract,
    g: Seq<char>,
    t: Seq<char>,
    payment: u128,
    now: u64,
) -> Option<SaleError> {
    if !has_info(c.games@, g, t) {
        Some(SaleError::NotFound)
    } else if now < start_of(c.games@, g) {
        Some(SaleError::SaleNotStarted)
    } else if sold_of(c.games@, g, t) >= supply_of(c.games@, g, t) {
        Some(SaleError::SoldOut)
    } else if payment < unit_price_of(c.games@, g, t) {
        Some(SaleError::InsufficientPayment)
    } else if next_of(c.games@, g, t) == u64::MAX {
        Some(SaleError::SoldOut)
    } else if has_ticket(c.tickets@, spec_ticket_id(g, t, next_of(c.games@, g, t) as nat)) {
        Some(SaleError::SoldOut)
    } else {
        None
    }
}

/// The speculative settlement entry a purchase records.
pub open spec fn ticket_entry_shape(
    e: TicketMetadata,
    g: Seq<char>,
    t: Seq<char>,
    idx: nat,
    now: u64,
) -> bool {
    &&& e.ticket_id@ == spec_ticket_id(g, t, idx)
    &&& e.game_id@ == g
    &&& e.ticket_type@ == t
    &&& e.is_used == false
    &&& e.issued_at == now
    &&& e.status == TicketStatus::Pending
    &&& e.game is None
}

/// The pending context a purchase records for its callback.
pub open spec fn pending_shape(
    p: PendingPurchase,
    g: Seq<char>,
    t: Seq<char>,
    idx: nat,
    buyer: Seq<char>,
    payment: u128,
) -> bool {
    &&& p.ticket_id@ == spec_ticket_id(g, t, idx)
    &&& p.game_id@ == g
    &&& p.ticket_type@ == t
    &&& p.buyer@ == buyer
    &&& p.payment == payment
}

/// A successful purchase: one unit reserved, the ticket id derived from the
/// fresh reservation index, and a `Pending` settlement entry plus a pending
/// context appended. The id was checked fresh, so an id is never reused.
pub open spec fn purchase_ok(
    pre: Contract,
    post: Contract,
    g: Seq<char>,
    t: Seq<char>,
    buyer: Seq<char>,
    payment: u128,
    now: u64,
    receipt: PurchaseReceipt,
) -> bool {
    let idx = next_of(pre.games@, g, t);
    &&& purchase_outcome(pre, g, t, payment, now) is None
    &&& receipt.reservation_index == idx
    &&& receipt.ticket_id@ == spec_ticket_id(g, t, idx as nat)
    &&& games_reserved(pre.games@, post.games@, g, t)
    &&& post.tickets@.len() == pre.tickets@.len() + 1
    &&& post.tickets@.drop_last() == pre.tickets@
    &&& ticket_entry_shape(post.tickets@.last(), g, t, idx as nat, now)
    &&& post.pending@.len() == pre.pending@.len() + 1
    &&& post.pending@.drop_last() == pre.pending@
    &&& pending_shape(post.pending@.last(), g, t, idx as nat, buyer, payment)
    &&& post.owner_id == pre.owner_id
    &&& post.metadata == pre.metadata
}

/// One settlement entry with its status resolved, all else kept.
pub open spec fn status_resolved(o: TicketMetadata, n: TicketMetadata, st: TicketStatus) -> bool {
    &&& n.ticket_id == o.ticket_id
    &&& n.game_id == o.game_id
    &&& n.ticket_type == o.ticket_type
    &&& n.is_used == o.is_used
    &&& n.issued_at == o.issued_at
    &&& n.game == o.game
    &&& n.status == st
}

/// The issuance callback: consumes the pending context keyed by `id`. On
/// success the entry is confirmed and nothing else moves; on failure the
/// entry is compensated, the reserved unit released, and the recorded
/// payment owed back to the recorded buyer.
pub open spec fn callback_step(
    pre: Contract,
    post: Contract,
    id: Seq<char>,
    ok: bool,
    r: Result<Option<RefundAction>, SaleError>,
) -> bool {
    if !has_pending(pre.pending@, id) {
        &&& r == Result::<Option<RefundAction>, SaleError>::Err(SaleError::NotFound)
        &&& post == pre
    } else {
        let k = pending_index(pre.pending@, id);
        let p = pre.pending@[k];
        let m = ticket_index(pre.tickets@, id);
        &&& post.pending@ == pre.pending@.remove(k)
        &&& seq_update_at(pre.tickets@, post.tickets@, m)
        &&& status_resolved(
            pre.tickets@[m],
            post.tickets@[m],
            if ok {
                TicketStatus::Confirmed
            } else {
                TicketStatus::Compensated
            },
        )
        &&& post.owner_id == pre.owner_id
        &&& post.metadata == pre.metadata
        &&& if ok {
            &&& r == Result::<Option<RefundAction>, SaleError>::Ok(None)
            &&& post.games == pre.games
        } else {
            &&& games_released(pre.games@, post.games@, p.game_id@, p.ticket_type@)
            &&& r matches Ok(Some(refund)) && refund.buyer == p.buyer && refund.amount
                == p.payment
        }
    }
}

/// Which error a redemption returns, if any: only a confirmed, unredeemed
/// entry owned by the caller passes.
pub open spec fn redeem_outcome(
    c: Contract,
    id: Seq<char>,
    caller: Seq<char>,
    owner: Option<Seq<char>>,
) -> Option<SaleError> {
    if !has_ticket(c.tickets@, id) || the_ticket(c.tickets@, id).status
        != TicketStatus::Confirmed {
        Some(SaleError::NotFound)
    } else if owner != Some(caller) {
        Some(SaleError::NotOwner)
    } else if the_ticket(c.tickets@, id).is_used {
        Some(SaleError::AlreadyUsed)
    } else {
        None
    }
}

/// One settlement entry redeemed, all else kept.
pub open spec fn used_set(o: TicketMetadata, n: TicketMetadata) -> bool {
    &&& n.ticket_id == o.ticket_id
    &&& n.game_id == o.game_id
    &&& n.ticket_type == o.ticket_type
    &&& n.is_used == true
    &&& n.issued_at == o.issued_at
    &&& n.game == o.game
    &&& n.status == o.status
}

/// The redemption gate: marks the entry used exactly once; any refusal
/// leaves the state unchanged.
pub open spec fn redeem_step(
    pre: Contract,
    post: Contract,
    id: Seq<char>,
    caller: Seq<char>,
    owner: Option<Seq<char>>,
    r: Result<(), SaleError>,
) -> bool {
    match redeem_outcome(pre, id, caller, owner) {
        Some(e) => r == Result::<(), SaleError>::Err(e) && post == pre,
        None => {
            let m = ticket_index(pre.tickets@, id);
            &&& r == Result::<(), SaleError>::Ok(())
            &&& seq_update_at(pre.tickets@, post.tickets@, m)
            &&& used_set(pre.tickets@[m], post.tickets@[m])
            &&& post.games == pre.games
            &&& post.pending == pre.pending
            &&& post.owner_id == pre.owner_id
            &&& post.metadata == pre.metadata
        },
    }
}

/// The caller's view of an optional owner answer from the identity registry.
pub open spec fn opt_string_view(o: Option<String>) -> Option<Seq<char>> {
    match o {
        None => None,
        Some(s) => Some(s@),
    }
}

// ---------------------------------------------------------------------------
// Copies. A copy of a game carries the same catalog data; its vector of
// ticket types is a fresh vector with the same view.
// ---------------------------------------------------------------------------

pub open spec fn game_like(a: GameMetadata, b: GameMetadata) -> bool {
    same_except_infos(a, b) && b.ticket_infos@ == a.ticket_infos@
}

pub open spec fn opt_game_like(a: Option<GameMetadata>, b: Option<GameMetadata>) -> bool {
    match a {
        None => b is None,
        Some(x) => b matches Some(y) && game_like(x, y),
    }
}

pub open spec fn ticket_like(a: TicketMetadata, b: TicketMetadata) -> bool {
    &&& b.ticket_id == a.ticket_id
    &&& b.game_id == a.game_id
    &&& b.ticket_type == a.ticket_type
    &&& b.is_used == a.is_used
    &&& b.issued_at == a.issued_at
    &&& b.status == a.status
    &&& opt_game_like(a.game, b.game)
}

/// Has this game's sale already started at `now`?
pub open spec fn active_pred(now: u64) -> spec_fn(GameMetadata) -> bool {
    |g: GameMetadata| g.selling_start_time < now
}

pub proof fn lemma_filter_push<T>(s: Seq<T>, p: spec_fn(T) -> bool, x: T)
    ensures
        s.push(x).filter(p) == if p(x) {
            s.filter(p).push(x)
        } else {
            s.filter(p)
        },
{
    reveal(Seq::filter);
    assert(s.push(x).drop_last() =~= s);
    assert(s.push(x).last() == x);
}

// ---------------------------------------------------------------------------
// More counting facts.
// ---------------------------------------------------------------------------

pub proof fn lemma_count_zero<T>(s: Seq<T>, p: spec_fn(T) -> bool)
    requires
        forall|i: int| 0 <= i < s.len() ==> !p(#[trigger] s[i]),
    ensures
        count_where(s, p) == 0,
    decreases s.len(),
{
    if s.len() > 0 {
        lemma_count_zero(s.drop_last(), p);
    }
}

// ---------------------------------------------------------------------------
// Well-formedness is preserved by each kind of step.
// ---------------------------------------------------------------------------

/// A point update of one ticket type that keeps every key, keeps
/// `sold <= supply`, and keeps `sold` at or above the confirmed and
/// in-flight counts, preserves the invariant.
pub proof fn lemma_wf_games_updated(pre: Contract, post: Contract, g: Seq<char>, t: Seq<char>)
    requires
        wf(pre),
        has_info(pre.games@, g, t),
        post.tickets == pre.tickets,
        post.pending == pre.pending,
        seq_update_at(pre.games@, post.games@, game_index(pre.games@, g)),
        same_except_infos(the_game(pre.games@, g), post.games@[game_index(pre.games@, g)]),
        seq_update_at(
            the_game(pre.games@, g).ticket_infos@,
            post.games@[game_index(pre.games@, g)].ticket_infos@,
            tt_index(the_game(pre.games@, g).ticket_infos@, t),
        ),
        ({
            let gi = game_index(pre.games@, g);
            let ti = tt_index(the_game(pre.games@, g).ticket_infos@, t);
            let n = post.games@[gi].ticket_infos@[ti];
            &&& n.ticket_type@ == t
            &&& n.sold <= n.supply
            &&& confirmed_count(pre.tickets@, g, t) + pending_count(pre.pending@, g, t) <= n.sold
        }),
    ensures
        wf(post),
{
    let a = pre.games@;
    let b = post.games@;
    lemma_game_index(a, g);
    let gi = game_index(a, g);
    lemma_tt_index(a[gi].ticket_infos@, t);
    let ti = tt_index(a[gi].ticket_infos@, t);
    assert forall|k: int| 0 <= k < a.len() implies #[trigger] b[k].game_id@ == a[k].game_id@
        && b[k].ticket_infos@.len() == a[k].ticket_infos@.len() by {
        if k != gi {
            assert(b[k] == a[k]);
        }
    };
    assert forall|k: int, j: int| 0 <= k < a.len() && 0 <= j < a[k].ticket_infos@.len()
        implies #[trigger] b[k].ticket_infos@[j].ticket_type@
        == a[k].ticket_infos@[j].ticket_type@ by {
        if k != gi {
            assert(b[k] == a[k]);
        } else if j != ti {
            assert(b[k].ticket_infos@[j] == a[k].ticket_infos@[j]);
        }
    };
    lemma_lookups_preserved(a, b);
    assert forall|i: int, j: int|
        0 <= i < b.len() && 0 <= j < b[i].ticket_infos@.len()
        implies #[trigger] b[i].ticket_infos@[j].sold <= b[i].ticket_infos@[j].supply by {
        if i != gi {
            assert(b[i] == a[i]);
        } else if j != ti {
            assert(b[i].ticket_infos@[j] == a[i].ticket_infos@[j]);
        }
    };
    assert forall|k: int| 0 <= k < post.pending@.len() implies {
        let p = #[trigger] post.pending@[k];
        &&& has_info(post.games@, p.game_id@, p.ticket_type@)
        &&& has_ticket(post.tickets@, p.ticket_id@)
        &&& the_ticket(post.tickets@, p.ticket_id@).status == TicketStatus::Pending
        &&& the_ticket(post.tickets@, p.ticket_id@).game_id@ == p.game_id@
        &&& the_ticket(post.tickets@, p.ticket_id@).ticket_type@ == p.ticket_type@
    } by {
        assert(post.pending@[k] == pre.pending@[k]);
        assert(has_info(pre.games@, pre.pending@[k].game_id@, pre.pending@[k].ticket_type@));
    };
    assert forall|k: int| 0 <= k < post.tickets@.len() implies has_info(
        post.games@,
        (#[trigger] post.tickets@[k]).game_id@,
        post.tickets@[k].ticket_type@,
    ) by {
        assert(post.tickets@[k] == pre.tickets@[k]);
        assert(has_info(pre.games@, pre.tickets@[k].game_id@, pre.tickets@[k].ticket_type@));
    };
    assert forall|i: int, j: int| 0 <= i < b.len() && 0 <= j < b[i].ticket_infos@.len() implies {
        let gg = b[i].game_id@;
        let tt = (#[trigger] b[i].ticket_infos@[j]).ticket_type@;
        confirmed_count(post.tickets@, gg, tt) + pending_count(post.pending@, gg, tt)
            <= b[i].ticket_infos@[j].sold
    } by {
        if i == gi && j == ti {
            assert(b[i].game_id@ == g);
        } else {
            if i != gi {
                assert(b[i] == a[i]);
            } else {
                assert(b[i].ticket_infos@[j] == a[i].ticket_infos@[j]);
                assert(b[i].game_id@ == a[i].game_id@);
            }
            assert(a[i].ticket_infos@[j].sold >= confirmed_count(
                pre.tickets@,
                a[i].game_id@,
                a[i].ticket_infos@[j].ticket_type@,
            ) + pending_count(pre.pending@, a[i].game_id@, a[i].ticket_infos@[j].ticket_type@));
        }
    };
}

/// A point update of one ticket type that keeps every key leaves every
/// lookup where it was, and every other ticket type untouched.
pub proof fn lemma_info_point_update(
    a: Seq<GameMetadata>,
    b: Seq<GameMetadata>,
    g: Seq<char>,
    t: Seq<char>,
)
    requires
        games_unique(a),
        forall|k: int| #![trigger a[k]] 0 <= k < a.len() ==> infos_unique(a[k].ticket_infos@),
        has_info(a, g, t),
        seq_update_at(a, b, game_index(a, g)),
        same_except_infos(the_game(a, g), b[game_index(a, g)]),
        seq_update_at(
            the_game(a, g).ticket_infos@,
            b[game_index(a, g)].ticket_infos@,
            tt_index(the_game(a, g).ticket_infos@, t),
        ),
        b[game_index(a, g)].ticket_infos@[tt_index(the_game(a, g).ticket_infos@, t)].ticket_type@
            == t,
    ensures
        games_unique(b),
        forall|k: int| #![trigger b[k]] 0 <= k < b.len() ==> infos_unique(b[k].ticket_infos@),
        forall|gg: Seq<char>| #![trigger has_game(b, gg)] has_game(b, gg) == has_game(a, gg),
        forall|gg: Seq<char>| #![trigger game_index(b, gg)]
            has_game(a, gg) ==> game_index(b, gg) == game_index(a, gg),
        forall|gg: Seq<char>| #![trigger start_of(b, gg)]
            has_game(a, gg) ==> start_of(b, gg) == start_of(a, gg),
        forall|gg: Seq<char>, tt: Seq<char>| #![trigger has_info(b, gg, tt)]
            has_info(b, gg, tt) == has_info(a, gg, tt),
        has_info(b, g, t),
        info_of(b, g, t) == b[game_index(a, g)].ticket_infos@[tt_index(
            the_game(a, g).ticket_infos@,
            t,
        )],
        forall|gg: Seq<char>, tt: Seq<char>| #![trigger info_of(b, gg, tt)]
            has_info(a, gg, tt) && !(gg == g && tt == t) ==> info_of(b, gg, tt) == info_of(
                a,
                gg,
                tt,
            ),
{
    lemma_game_index(a, g);
    let gi = game_index(a, g);
    lemma_tt_index(a[gi].ticket_infos@, t);
    let ti = tt_index(a[gi].ticket_infos@, t);
    assert forall|k: int| 0 <= k < a.len() implies #[trigger] b[k].game_id@ == a[k].game_id@
        && b[k].ticket_infos@.len() == a[k].ticket_infos@.len() by {
        if k != gi {
            assert(b[k] == a[k]);
        }
    };
    assert forall|k: int, j: int| 0 <= k < a.len() && 0 <= j < a[k].ticket_infos@.len()
        implies #[trigger] b[k].ticket_infos@[j].ticket_type@
        == a[k].ticket_infos@[j].ticket_type@ by {
        if k != gi {
            assert(b[k] == a[k]);
        } else if j != ti {
            assert(b[k].ticket_infos@[j] == a[k].ticket_infos@[j]);
        }
    };
    lemma_lookups_preserved(a, b);
    assert forall|gg: Seq<char>| has_game(a, gg) implies #[trigger] start_of(b, gg) == start_of(
        a,
        gg,
    ) by {
        lemma_game_index(a, gg);
        let i = game_index(a, gg);
        if i != gi {
            assert(b[i] == a[i]);
        }
    };
    assert(has_tt(b[gi].ticket_infos@, t));
    assert(has_info(b, g, t));
    assert(info_of(b, g, t) == b[gi].ticket_infos@[ti]);
    assert forall|gg: Seq<char>, tt: Seq<char>|
        has_info(a, gg, tt) && !(gg == g && tt == t) implies #[trigger] info_of(b, gg, tt)
        == info_of(a, gg, tt) by {
        lemma_game_index(a, gg);
        let i = game_index(a, gg);
        lemma_tt_index(a[i].ticket_infos@, tt);
        let j = tt_index(a[i].ticket_infos@, tt);
        if i != gi {
            assert(b[i] == a[i]);
        } else {
            assert(gg == g);
            assert(j != ti);
            assert(b[i].ticket_infos@[j] == a[i].ticket_infos@[j]);
        }
    };
}

/// What `nft_private_mint` records: the fresh `Pending` settlement entry
/// and the pending context of the purchase, with nothing else moved.
pub open spec fn issue_recorded(
    pre: Contract,
    post: Contract,
    g: Seq<char>,
    t: Seq<char>,
    idx: nat,
    buyer: Seq<char>,
    payment: u128,
    now: u64,
) -> bool {
    &&& post.games == pre.games
    &&& post.owner_id == pre.owner_id
    &&& post.metadata == pre.metadata
    &&& post.tickets@.len() == pre.tickets@.len() + 1
    &&& post.tickets@.drop_last() == pre.tickets@
    &&& ticket_entry_shape(post.tickets@.last(), g, t, idx, now)
    &&& post.pending@.len() == pre.pending@.len() + 1
    &&& post.pending@.drop_last() == pre.pending@
    &&& pending_shape(post.pending@.last(), g, t, idx, buyer, payment)
}

/// Consuming one pending context and resolving its settlement entry to a
/// final status preserves the invariant and lowers the per-type load by
/// one when the resolution is a compensation.
pub proof fn lemma_wf_context_resolved(
    pre: Contract,
    post: Contract,
    id: Seq<char>,
    st: TicketStatus,
)
    requires
        wf(pre),
        has_pending(pre.pending@, id),
        st != TicketStatus::Pending,
        post.games == pre.games,
        post.pending@ == pre.pending@.remove(pending_index(pre.pending@, id)),
        seq_update_at(pre.tickets@, post.tickets@, ticket_index(pre.tickets@, id)),
        status_resolved(
            pre.tickets@[ticket_index(pre.tickets@, id)],
            post.tickets@[ticket_index(pre.tickets@, id)],
            st,
        ),
    ensures
        wf(post),
        ({
            let p = pre.pending@[pending_index(pre.pending@, id)];
            st == TicketStatus::Compensated ==> confirmed_count(post.tickets@, p.game_id@,
            p.ticket_type@) + pending_count(post.pending@, p.game_id@, p.ticket_type@) + 1
                == confirmed_count(pre.tickets@, p.game_id@, p.ticket_type@) + pending_count(
                pre.pending@,
                p.game_id@,
                p.ticket_type@,
            )
        }),
{
    lemma_pending_index(pre.pending@, id);
    let k = pending_index(pre.pending@, id);
    let p = pre.pending@[k];
    assert(has_ticket(pre.tickets@, id));
    lemma_ticket_index(pre.tickets@, id);
    let m = ticket_index(pre.tickets@, id);
    let eo = pre.tickets@[m];
    let en = post.tickets@[m];
    assert(eo.status == TicketStatus::Pending);
    assert(eo.game_id@ == p.game_id@ && eo.ticket_type@ == p.ticket_type@);
    let pn = pre.pending@.len() as int;
    // indices of the shrunk pending vector map back into the old one
    assert forall|k2: int| 0 <= k2 < post.pending@.len() implies #[trigger] post.pending@[k2]
        == pre.pending@[if k2 < k { k2 } else { k2 + 1 }] by {}
    assert(pending_unique(post.pending@));
    assert forall|k2: int| 0 <= k2 < post.tickets@.len()
        implies (#[trigger] post.tickets@[k2]).ticket_id@ == pre.tickets@[k2].ticket_id@ by {
        if k2 != m {
            assert(post.tickets@[k2] == pre.tickets@[k2]);
        }
    };
    assert(tickets_unique(post.tickets@));
    // every remaining context still points at its untouched Pending entry
    assert forall|k2: int| 0 <= k2 < post.pending@.len() implies {
        let q = #[trigger] post.pending@[k2];
        &&& has_info(post.games@, q.game_id@, q.ticket_type@)
        &&& has_ticket(post.tickets@, q.ticket_id@)
        &&& the_ticket(post.tickets@, q.ticket_id@).status == TicketStatus::Pending
        &&& the_ticket(post.tickets@, q.ticket_id@).game_id@ == q.game_id@
        &&& the_ticket(post.tickets@, q.ticket_id@).ticket_type@ == q.ticket_type@
    } by {
        let q = post.pending@[k2];
        let k3: int = if k2 < k {
            k2
        } else {
            k2 + 1
        };
        assert(q == pre.pending@[k3]);
        assert(has_ticket(pre.tickets@, q.ticket_id@));
        lemma_ticket_index(pre.tickets@, q.ticket_id@);
        let m2 = ticket_index(pre.tickets@, q.ticket_id@);
        assert(q.ticket_id@ != id);
        assert(m2 != m);
        assert(post.tickets@[m2] == pre.tickets@[m2]);
        lemma_ticket_index(post.tickets@, q.ticket_id@);
        assert(ticket_index(post.tickets@, q.ticket_id@) == m2);
    };
    assert forall|k2: int| 0 <= k2 < post.tickets@.len() implies has_info(
        post.games@,
        (#[trigger] post.tickets@[k2]).game_id@,
        post.tickets@[k2].ticket_type@,
    ) by {
        if k2 != m {
            assert(post.tickets@[k2] == pre.tickets@[k2]);
        }
        assert(has_info(pre.games@, pre.tickets@[k2].game_id@, pre.tickets@[k2].ticket_type@));
    };
    // the per-type counts move as the resolution says
    assert forall|gg: Seq<char>, tt: Seq<char>| true implies #[trigger] confirmed_count(
        post.tickets@,
        gg,
        tt,
    ) == confirmed_count(pre.tickets@, gg, tt) + (
    if (st == TicketStatus::Confirmed && eo.game_id@ == gg && eo.ticket_type@ == tt) {
        1nat
    } else {
        0nat
    }) by {
        lemma_count_update(pre.tickets@, confirmed_pred(gg, tt), m, post.tickets@[m]);
        assert(pre.tickets@.update(m, post.tickets@[m]) =~= post.tickets@);
        assert(!confirmed_pred(gg, tt)(eo));
    };
    assert forall|gg: Seq<char>, tt: Seq<char>| true implies #[trigger] pending_count(
        post.pending@,
        gg,
        tt,
    ) + (if (p.game_id@ == gg && p.ticket_type@ == tt) {
        1nat
    } else {
        0nat
    }) == pending_count(pre.pending@, gg, tt) by {
        lemma_count_remove(pre.pending@, pending_pred(gg, tt), k);
    };
    assert forall|i: int, j: int|
        0 <= i < post.games@.len() && 0 <= j < post.games@[i].ticket_infos@.len() implies {
        let gg = post.games@[i].game_id@;
        let tt = (#[trigger] post.games@[i].ticket_infos@[j]).ticket_type@;
        confirmed_count(post.tickets@, gg, tt) + pending_count(post.pending@, gg, tt)
            <= post.games@[i].ticket_infos@[j].sold
    } by {
        let gg = post.games@[i].game_id@;
        let tt = post.games@[i].ticket_infos@[j].ticket_type@;
        assert(confirmed_count(pre.tickets@, gg, tt) + pending_count(pre.pending@, gg, tt)
            <= pre.games@[i].ticket_infos@[j].sold);
    };
}

/// Marking a confirmed settlement entry used preserves the invariant: no
/// pending context can point at a confirmed entry, and the counts only
/// look at statuses, which do not move.
pub proof fn lemma_wf_ticket_used(pre: Contract, post: Contract, id: Seq<char>)
    requires
        wf(pre),
        has_ticket(pre.tickets@, id),
        the_ticket(pre.tickets@, id).status == TicketStatus::Confirmed,
        post.games == pre.games,
        post.pending == pre.pending,
        seq_update_at(pre.tickets@, post.tickets@, ticket_index(pre.tickets@, id)),
        used_set(
            pre.tickets@[ticket_index(pre.tickets@, id)],
            post.tickets@[ticket_index(pre.tickets@, id)],
        ),
    ensures
        wf(post),
{
    lemma_ticket_index(pre.tickets@, id);
    let m = ticket_index(pre.tickets@, id);
    let eo = pre.tickets@[m];
    assert forall|k2: int| 0 <= k2 < post.tickets@.len()
        implies (#[trigger] post.tickets@[k2]).ticket_id@ == pre.tickets@[k2].ticket_id@
        && post.tickets@[k2].status == pre.tickets@[k2].status && post.tickets@[k2].game_id@
        == pre.tickets@[k2].game_id@ && post.tickets@[k2].ticket_type@
        == pre.tickets@[k2].ticket_type@ by {
        if k2 != m {
            assert(post.tickets@[k2] == pre.tickets@[k2]);
        }
    };
    assert(tickets_unique(post.tickets@));
    assert forall|k: int| 0 <= k < post.pending@.len() implies {
        let q = #[trigger] post.pending@[k];
        &&& has_info(post.games@, q.game_id@, q.ticket_type@)
        &&& has_ticket(post.tickets@, q.ticket_id@)
        &&& the_ticket(post.tickets@, q.ticket_id@).status == TicketStatus::Pending
        &&& the_ticket(post.tickets@, q.ticket_id@).game_id@ == q.game_id@
        &&& the_ticket(post.tickets@, q.ticket_id@).ticket_type@ == q.ticket_type@
    } by {
        let q = pre.pending@[k];
        assert(has_ticket(pre.tickets@, q.ticket_id@));
        lemma_ticket_index(pre.tickets@, q.ticket_id@);
        let m2 = ticket_index(pre.tickets@, q.ticket_id@);
        assert(pre.tickets@[m2].status == TicketStatus::Pending);
        assert(m2 != m);
        assert(post.tickets@[m2] == pre.tickets@[m2]);
        lemma_ticket_index(post.tickets@, q.ticket_id@);
        assert(ticket_index(post.tickets@, q.ticket_id@) == m2);
    };
    assert forall|k2: int| 0 <= k2 < post.tickets@.len() implies has_info(
        post.games@,
        (#[trigger] post.tickets@[k2]).game_id@,
        post.tickets@[k2].ticket_type@,
    ) by {
        assert(has_info(pre.games@, pre.tickets@[k2].game_id@, pre.tickets@[k2].ticket_type@));
    };
    assert forall|gg: Seq<char>, tt: Seq<char>| true implies #[trigger] confirmed_count(
        post.tickets@,
        gg,
        tt,
    ) == confirmed_count(pre.tickets@, gg, tt) by {
        lemma_count_update(pre.tickets@, confirmed_pred(gg, tt), m, post.tickets@[m]);
        assert(pre.tickets@.update(m, post.tickets@[m]) =~= post.tickets@);
        assert(confirmed_pred(gg, tt)(eo) == confirmed_pred(gg, tt)(post.tickets@[m]));
    };
    assert forall|i: int, j: int|
        0 <= i < post.games@.len() && 0 <= j < post.games@[i].ticket_infos@.len() implies {
        let gg = post.games@[i].game_id@;
        let tt = (#[trigger] post.games@[i].ticket_infos@[j]).ticket_type@;
        confirmed_count(post.tickets@, gg, tt) + pending_count(post.pending@, gg, tt)
            <= post.games@[i].ticket_infos@[j].sold
    } by {
        let gg = post.games@[i].game_id@;
        let tt = post.games@[i].ticket_infos@[j].ticket_type@;
        assert(confirmed_count(pre.tickets@, gg, tt) + pending_count(pre.pending@, gg, tt)
            <= pre.games@[i].ticket_infos@[j].sold);
    };
}

/// Appending a fresh ticket type to an existing game preserves the
/// invariant: nothing in the settlement log or among the pending contexts
/// can already reference it.
pub proof fn lemma_wf_info_pushed(pre: Contract, post: Contract, g: Seq<char>, info: TicketInfo)
    requires
        wf(pre),
        has_game(pre.games@, g),
        !has_tt(the_game(pre.games@, g).ticket_infos@, info.ticket_type@),
        info.sold <= info.supply,
        post.tickets == pre.tickets,
        post.pending == pre.pending,
        seq_update_at(pre.games@, post.games@, game_index(pre.games@, g)),
        same_except_infos(the_game(pre.games@, g), post.games@[game_index(pre.games@, g)]),
        post.games@[game_index(pre.games@, g)].ticket_infos@ == the_game(
            pre.games@,
            g,
        ).ticket_infos@.push(info),
    ensures
        wf(post),
{
    let a = pre.games@;
    let b = post.games@;
    lemma_game_index(a, g);
    let gi = game_index(a, g);
    let t = info.ticket_type@;
    let oldlen = a[gi].ticket_infos@.len() as int;
    assert forall|k: int| 0 <= k < a.len() implies #[trigger] b[k].game_id@ == a[k].game_id@ by {
        if k != gi {
            assert(b[k] == a[k]);
        }
    };
    assert(games_unique(b));
    assert forall|j: int| 0 <= j < oldlen
        implies #[trigger] b[gi].ticket_infos@[j] == a[gi].ticket_infos@[j] by {}
    assert forall|k: int| 0 <= k < b.len() implies infos_unique(
        (#[trigger] b[k]).ticket_infos@,
    ) by {
        if k != gi {
            assert(b[k] == a[k]);
            assert(infos_unique(a[k].ticket_infos@));
        } else {
            assert forall|j: int| 0 <= j < oldlen
                implies (#[trigger] a[gi].ticket_infos@[j]).ticket_type@ != t by {
                if a[gi].ticket_infos@[j].ticket_type@ == t {
                    assert(has_tt(a[gi].ticket_infos@, t));
                }
            };
            assert(infos_unique(a[gi].ticket_infos@));
        }
    };
    // every existing lookup still succeeds, at the same game index
    assert forall|gg: Seq<char>, tt: Seq<char>| has_info(a, gg, tt) implies #[trigger] has_info(
        b,
        gg,
        tt,
    ) by {
        lemma_game_index(a, gg);
        let i = game_index(a, gg);
        assert(b[i].game_id@ == gg);
        lemma_game_index(b, gg);
        assert(game_index(b, gg) == i);
        lemma_tt_index(a[i].ticket_infos@, tt);
        let j = tt_index(a[i].ticket_infos@, tt);
        if i != gi {
            assert(b[i] == a[i]);
        } else {
            assert(b[i].ticket_infos@[j] == a[i].ticket_infos@[j]);
        }
        assert(has_tt(b[i].ticket_infos@, tt));
    };
    assert forall|k: int| 0 <= k < post.pending@.len() implies {
        let q = #[trigger] post.pending@[k];
        &&& has_info(post.games@, q.game_id@, q.ticket_type@)
        &&& has_ticket(post.tickets@, q.ticket_id@)
        &&& the_ticket(post.tickets@, q.ticket_id@).status == TicketStatus::Pending
        &&& the_ticket(post.tickets@, q.ticket_id@).game_id@ == q.game_id@
        &&& the_ticket(post.tickets@, q.ticket_id@).ticket_type@ == q.ticket_type@
    } by {
        let q = pre.pending@[k];
        assert(has_info(a, q.game_id@, q.ticket_type@));
    };
    assert forall|k: int| 0 <= k < post.tickets@.len() implies has_info(
        post.games@,
        (#[trigger] post.tickets@[k]).game_id@,
        post.tickets@[k].ticket_type@,
    ) by {
        assert(has_info(a, pre.tickets@[k].game_id@, pre.tickets@[k].ticket_type@));
    };
    assert forall|i: int, j: int|
        0 <= i < b.len() && 0 <= j < b[i].ticket_infos@.len() implies {
        let gg = b[i].game_id@;
        let tt = (#[trigger] b[i].ticket_infos@[j]).ticket_type@;
        confirmed_count(post.tickets@, gg, tt) + pending_count(post.pending@, gg, tt)
            <= b[i].ticket_infos@[j].sold
    } by {
        let gg = b[i].game_id@;
        let tt = b[i].ticket_infos@[j].ticket_type@;
        if i == gi && j == oldlen {
            // the fresh type: nothing references it yet
            assert(gg == g && tt == t);
            assert forall|k: int| 0 <= k < pre.tickets@.len() implies !(confirmed_pred(gg, tt)(
                #[trigger] pre.tickets@[k],
            )) by {
                if pre.tickets@[k].game_id@ == g && pre.tickets@[k].ticket_type@ == t {
                    assert(has_info(a, g, t));
                    lemma_game_index(a, g);
                    assert(has_tt(the_game(a, g).ticket_infos@, t));
                }
            };
            assert forall|k: int| 0 <= k < pre.pending@.len() implies !(pending_pred(gg, tt)(
                #[trigger] pre.pending@[k],
            )) by {
                if pre.pending@[k].game_id@ == g && pre.pending@[k].ticket_type@ == t {
                    assert(has_info(a, g, t));
                    assert(has_tt(the_game(a, g).ticket_infos@, t));
                }
            };
            lemma_count_zero(pre.tickets@, confirmed_pred(gg, tt));
            lemma_count_zero(pre.pending@, pending_pred(gg, tt));
        } else {
            if i != gi {
                assert(b[i] == a[i]);
            } else {
                assert(b[i].ticket_infos@[j] == a[i].ticket_infos@[j]);
            }
            assert(confirmed_count(pre.tickets@, gg, tt) + pending_count(pre.pending@, gg, tt)
                <= a[i].ticket_infos@[j].sold);
        }
    };
}

/// Recording one issuance — a fresh `Pending` settlement entry plus its
/// pending context — preserves the invariant, provided a reservation is
/// outstanding for it (the counts sit strictly below `sold`).
pub proof fn lemma_wf_issue_recorded(
    pre: Contract,
    post: Contract,
    g: Seq<char>,
    t: Seq<char>,
    idx: nat,
    buyer: Seq<char>,
    payment: u128,
    now: u64,
)
    requires
        wf(pre),
        has_info(pre.games@, g, t),
        post.games == pre.games,
        post.tickets@.len() == pre.tickets@.len() + 1,
        post.tickets@.drop_last() == pre.tickets@,
        ticket_entry_shape(post.tickets@.last(), g, t, idx, now),
        post.pending@.len() == pre.pending@.len() + 1,
        post.pending@.drop_last() == pre.pending@,
        pending_shape(post.pending@.last(), g, t, idx, buyer, payment),
        !has_ticket(pre.tickets@, spec_ticket_id(g, t, idx)),
        confirmed_count(pre.tickets@, g, t) + pending_count(pre.pending@, g, t) < sold_of(
            pre.games@,
            g,
            t,
        ),
    ensures
        wf(post),
{
    let id = spec_ticket_id(g, t, idx);
    let e = post.tickets@.last();
    let p = post.pending@.last();
    let tn = pre.tickets@.len() as int;
    let pn = pre.pending@.len() as int;
    assert(post.tickets@ =~= pre.tickets@.push(e));
    assert(post.pending@ =~= pre.pending@.push(p));
    assert forall|k: int| 0 <= k < tn implies #[trigger] post.tickets@[k] == pre.tickets@[k] by {}
    assert forall|k: int| 0 <= k < pn implies #[trigger] post.pending@[k] == pre.pending@[k] by {}
    // the new id is fresh among entries and among contexts
    assert forall|k: int| 0 <= k < tn implies (#[trigger] pre.tickets@[k]).ticket_id@ != id by {}
    assert forall|k: int| 0 <= k < pn implies (#[trigger] pre.pending@[k]).ticket_id@ != id by {
        if pre.pending@[k].ticket_id@ == id {
            assert(has_ticket(pre.tickets@, id));
        }
    };
    assert(tickets_unique(post.tickets@));
    assert(pending_unique(post.pending@));
    lemma_ticket_index(post.tickets@, id);
    assert forall|k: int| 0 <= k < post.pending@.len() implies {
        let q = #[trigger] post.pending@[k];
        &&& has_info(post.games@, q.game_id@, q.ticket_type@)
        &&& has_ticket(post.tickets@, q.ticket_id@)
        &&& the_ticket(post.tickets@, q.ticket_id@).status == TicketStatus::Pending
        &&& the_ticket(post.tickets@, q.ticket_id@).game_id@ == q.game_id@
        &&& the_ticket(post.tickets@, q.ticket_id@).ticket_type@ == q.ticket_type@
    } by {
        if k < pn {
            let q = pre.pending@[k];
            assert(has_ticket(pre.tickets@, q.ticket_id@));
            lemma_ticket_index(pre.tickets@, q.ticket_id@);
            let m = ticket_index(pre.tickets@, q.ticket_id@);
            lemma_ticket_index(post.tickets@, q.ticket_id@);
            assert(post.tickets@[m].ticket_id@ == q.ticket_id@);
            assert(ticket_index(post.tickets@, q.ticket_id@) == m);
        } else {
            assert(post.pending@[k] == p);
            assert(post.tickets@[tn].ticket_id@ == id);
            assert(ticket_index(post.tickets@, id) == tn);
        }
    };
    assert forall|k: int| 0 <= k < post.tickets@.len() implies has_info(
        post.games@,
        (#[trigger] post.tickets@[k]).game_id@,
        post.tickets@[k].ticket_type@,
    ) by {
        if k < tn {
            assert(post.tickets@[k] == pre.tickets@[k]);
        }
    };
    assert forall|i: int, j: int|
        0 <= i < post.games@.len() && 0 <= j < post.games@[i].ticket_infos@.len() implies {
        let gg = post.games@[i].game_id@;
        let tt = (#[trigger] post.games@[i].ticket_infos@[j]).ticket_type@;
        confirmed_count(post.tickets@, gg, tt) + pending_count(post.pending@, gg, tt)
            <= post.games@[i].ticket_infos@[j].sold
    } by {
        let gg = post.games@[i].game_id@;
        let tt = post.games@[i].ticket_infos@[j].ticket_type@;
        let cp = confirmed_pred(gg, tt);
        let pp = pending_pred(gg, tt);
        lemma_count_push(pre.tickets@, cp, e);
        lemma_count_push(pre.pending@, pp, p);
        assert(!cp(e));
        if gg == g && tt == t {
            lemma_game_index(pre.games@, g);
            lemma_tt_index(the_game(pre.games@, g).ticket_infos@, t);
            assert(i == game_index(pre.games@, g));
            assert(j == tt_index(the_game(pre.games@, g).ticket_infos@, t));
            assert(post.games@[i].ticket_infos@[j].sold == sold_of(pre.games@, g, t));
        } else {
            assert(!pp(p));
        }
    };
}

/// Appending a game whose id is fresh and whose ticket types are unique,
/// with no confirmed or in-flight load above any of its `sold` counts,
/// preserves the invariant.
pub proof fn lemma_wf_game_pushed(pre: Contract, post: Contract)
    requires
        wf(pre),
        post.tickets == pre.tickets,
        post.pending == pre.pending,
        post.games@.len() == pre.games@.len() + 1,
        post.games@.drop_last() == pre.games@,
        !has_game(pre.games@, post.games@.last().game_id@),
        infos_unique(post.games@.last().ticket_infos@),
        forall|j: int| #![trigger post.games@.last().ticket_infos@[j]]
            0 <= j < post.games@.last().ticket_infos@.len() ==> {
                let inf = post.games@.last().ticket_infos@[j];
                inf.sold <= inf.supply && inf.sold == 0
            },
    ensures
        wf(post),
{
    let a = pre.games@;
    let b = post.games@;
    let n = a.len() as int;
    let gnew = b.last();
    assert(b =~= a.push(gnew));
    assert forall|k: int| 0 <= k < n implies #[trigger] b[k] == a[k] by {}
    assert forall|k: int| 0 <= k < n implies (#[trigger] a[k]).game_id@ != gnew.game_id@ by {}
    assert(games_unique(b));
    // lookups of old keys are unchanged; the new game's lookups hit index n
    assert forall|g: Seq<char>, t: Seq<char>| has_info(a, g, t) implies #[trigger] has_info(
        b,
        g,
        t,
    ) && game_index(b, g) == game_index(a, g) && the_game(b, g) == the_game(a, g) by {
        lemma_game_index(a, g);
        let i = game_index(a, g);
        assert(b[i].game_id@ == g);
        lemma_game_index(b, g);
        assert(game_index(b, g) == i);
    };
    assert forall|k: int| 0 <= k < post.pending@.len() implies {
        let p = #[trigger] post.pending@[k];
        &&& has_info(post.games@, p.game_id@, p.ticket_type@)
        &&& has_ticket(post.tickets@, p.ticket_id@)
        &&& the_ticket(post.tickets@, p.ticket_id@).status == TicketStatus::Pending
        &&& the_ticket(post.tickets@, p.ticket_id@).game_id@ == p.game_id@
        &&& the_ticket(post.tickets@, p.ticket_id@).ticket_type@ == p.ticket_type@
    } by {
        let p = pre.pending@[k];
        assert(has_info(a, p.game_id@, p.ticket_type@));
    };
    assert forall|k: int| 0 <= k < post.tickets@.len() implies has_info(
        post.games@,
        (#[trigger] post.tickets@[k]).game_id@,
        post.tickets@[k].ticket_type@,
    ) by {
        assert(has_info(a, pre.tickets@[k].game_id@, pre.tickets@[k].ticket_type@));
    };
    assert forall|i: int, j: int|
        0 <= i < b.len() && 0 <= j < b[i].ticket_infos@.len() implies {
        let gg = b[i].game_id@;
        let tt = (#[trigger] b[i].ticket_infos@[j]).ticket_type@;
        confirmed_count(post.tickets@, gg, tt) + pending_count(post.pending@, gg, tt)
            <= b[i].ticket_infos@[j].sold
    } by {
        let gg = b[i].game_id@;
        let tt = b[i].ticket_infos@[j].ticket_type@;
        let cp = confirmed_pred(gg, tt);
        let pp = pending_pred(gg, tt);
        if i < n {
            assert(b[i] == a[i]);
            assert(a[i].ticket_infos@[j] == b[i].ticket_infos@[j]);
            assert(a[i].ticket_infos@[j].sold >= confirmed_count(pre.tickets@, gg, tt)
                + pending_count(pre.pending@, gg, tt));
            assert(confirmed_count(post.tickets@, gg, tt) == confirmed_count(
                pre.tickets@,
                gg,
                tt,
            ));
            assert(pending_count(post.pending@, gg, tt) == pending_count(pre.pending@, gg, tt));
        } else {
            assert(i == n);
            assert(b[i] == gnew);
            assert(gnew.ticket_infos@[j].sold == 0);
            // nothing can reference the fresh game id
            assert forall|k: int| 0 <= k < pre.tickets@.len() implies !cp(
                #[trigger] pre.tickets@[k],
            ) by {
                if pre.tickets@[k].game_id@ == gg {
                    assert(has_info(a, gg, pre.tickets@[k].ticket_type@));
                    assert(has_game(a, gg));
                }
            };
            assert forall|k: int| 0 <= k < pre.pending@.len() implies !pp(
                #[trigger] pre.pending@[k],
            ) by {
                if pre.pending@[k].game_id@ == gg {
                    assert(has_info(a, gg, pre.pending@[k].ticket_type@));
                    assert(has_game(a, gg));
                }
            };
            lemma_count_zero(pre.tickets@, cp);
            lemma_count_zero(pre.pending@, pp);
            assert(confirmed_count(post.tickets@, gg, tt) == 0);
            assert(pending_count(post.pending@, gg, tt) == 0);
        }
    };
}

} // verus!
