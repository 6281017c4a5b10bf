//! The ledger's operations: catalog maintenance, the purchase saga with its
//! compensation callback, and the redemption gate.

use vstd::prelude::*;
use crate::ids::make_ticket_id;
use crate::ids::spec_ticket_id;
use crate::state::active_pred;
use crate::state::confirmed_count;
use crate::state::game_index;
use crate::state::game_like;
use crate::state::games_reserved;
use crate::state::has_game;
use crate::state::has_info;
use crate::state::has_pending;
use crate::state::has_ticket;
use crate::state::has_tt;
use crate::state::info_of;
use crate::state::info_released;
use crate::state::info_reserved;
use crate::state::infos_unique;
use crate::state::issue_recorded;
use crate::state::lemma_filter_push;
use crate::state::lemma_game_index;
use crate::state::lemma_info_point_update;
use crate::state::lemma_ticket_index;
use crate::state::lemma_tt_index;
use crate::state::lemma_wf_games_updated;
use crate::state::lemma_wf_issue_recorded;
use crate::state::next_of;
use crate::state::pending_count;
use crate::state::purchase_ok;
use crate::state::purchase_outcome;
use crate::state::release_ok;
use crate::state::reserve_ok;
use crate::state::reserve_outcome;
use crate::state::same_except_infos;
use crate::state::seq_update_at;
use crate::state::sold_of;
use crate::state::start_of;
use crate::state::supply_of;
use crate::state::the_game;
use crate::state::the_ticket;
use crate::state::ticket_entry_shape;
use crate::state::ticket_like;
use crate::state::tt_index;
use crate::state::unit_price_of;
use crate::state::callback_step;
use crate::state::games_released;
use crate::state::lemma_pending_index;
use crate::state::lemma_wf_context_resolved;
use crate::state::lemma_wf_game_pushed;
use crate::state::lemma_wf_info_pushed;
use crate::state::lemma_wf_ticket_used;
use crate::state::opt_string_view;
use crate::state::pending_index;
use crate::state::redeem_step;
use crate::state::status_resolved;
use crate::state::ticket_index;
use crate::state::used_set;
use crate::state::wf;
use crate::types::Contract;
use crate::types::MAX_UNIT_PRICE;
use crate::types::MINT_FEE;
use crate::types::RefundAction;
use crate::types::UNIT_SCALE;
use crate::types::GameMetadata;
use crate::types::MeowRushContractMetadata;
use crate::types::PendingPurchase;
use crate::types::PurchaseReceipt;
use crate::types::SaleError;
use crate::types::TicketInfo;
use crate::types::TicketMetadata;
use crate::types::TicketStatus;

verus! {

fn clone_opt_string(x: &Option<String>) -> (r: Option<String>)
    ensures
        r == *x,
{
    match x {
        None => None,
        Some(s) => Some(s.clone()),
    }
}

fn clone_info(x: &TicketInfo) -> (r: TicketInfo)
    ensures
        r == *x,
{
    TicketInfo {
        supply: x.supply,
        ticket_type: x.ticket_type.clone(),
        price: x.price,
        sold: x.sold,
        selling_start_time: x.selling_start_time,
        next_index: x.next_index,
    }
}

fn clone_game(x: &GameMetadata) -> (r: GameMetadata)
    ensures
        game_like(*x, r),
{
    let mut infos: Vec<TicketInfo> = Vec::new();
    let n = x.ticket_infos.len();
    let mut i: usize = 0;
    while i < n
        invariant
            i <= n,
            n == x.ticket_infos@.len(),
            infos@.len() == i,
            forall|k: int| 0 <= k < i ==> infos@[k] == x.ticket_infos@[k],
        decreases n - i,
    {
        infos.push(clone_info(&x.ticket_infos[i]));
        i += 1;
    }
    proof {
        assert(infos@ =~= x.ticket_infos@);
    }
    GameMetadata {
        game_id: x.game_id.clone(),
        game_title: clone_opt_string(&x.game_title),
        game_description: clone_opt_string(&x.game_description),
        ticket_infos: infos,
        game_banner: clone_opt_string(&x.game_banner),
        selling_start_time: x.selling_start_time,
    }
}

fn clone_ticket(x: &TicketMetadata) -> (r: TicketMetadata)
    ensures
        ticket_like(*x, r),
{
    TicketMetadata {
        ticket_id: x.ticket_id.clone(),
        game_id: x.game_id.clone(),
        ticket_type: x.ticket_type.clone(),
        is_used: x.is_used,
        issued_at: x.issued_at,
        status: x.status,
        game: match &x.game {
            None => None,
            Some(g) => Some(clone_game(g)),
        },
    }
}

fn clone_contract_metadata(x: &MeowRushContractMetadata) -> (r: MeowRushContractMetadata)
    ensures
        r == *x,
{
    MeowRushContractMetadata {
        spec_version: x.spec_version.clone(),
        name: x.name.clone(),
        symbol: x.symbol.clone(),
        description: clone_opt_string(&x.description),
    }
}

fn find_game(games: &Vec<GameMetadata>, gid: &String) -> (r: Option<usize>)
    ensures
        match r {
            Some(i) => i < games@.len() && games@[i as int].game_id@ == gid@,
            None => !has_game(games@, gid@),
        },
{
    let n = games.len();
    let mut i: usize = 0;
    while i < n
        invariant
            i <= n,
            n == games@.len(),
            forall|k: int| #![trigger games@[k]] 0 <= k < i ==> games@[k].game_id@ != gid@,
        decreases n - i,
    {
        if games[i].game_id == *gid {
            return Some(i);
        }
        i += 1;
    }
    None
}

fn find_tt(infos: &Vec<TicketInfo>, t: &String) -> (r: Option<usize>)
    ensures
        match r {
            Some(j) => j < infos@.len() && infos@[j as int].ticket_type@ == t@,
            None => !has_tt(infos@, t@),
        },
{
    let n = infos.len();
    let mut j: usize = 0;
    while j < n
        invariant
            j <= n,
            n == infos@.len(),
            forall|k: int| #![trigger infos@[k]] 0 <= k < j ==> infos@[k].ticket_type@ != t@,
        decreases n - j,
    {
        if infos[j].ticket_type == *t {
            return Some(j);
        }
        j += 1;
    }
    None
}

fn find_pending(pending: &Vec<PendingPurchase>, id: &String) -> (r: Option<usize>)
    ensures
        match r {
            Some(i) => i < pending@.len() && pending@[i as int].ticket_id@ == id@,
            None => !has_pending(pending@, id@),
        },
{
    let n = pending.len();
    let mut i: usize = 0;
    while i < n
        invariant
            i <= n,
            n == pending@.len(),
            forall|k: int| #![trigger pending@[k]] 0 <= k < i ==> pending@[k].ticket_id@ != id@,
        decreases n - i,
    {
        if pending[i].ticket_id == *id {
            return Some(i);
        }
        i += 1;
    }
    None
}

fn find_ticket(tickets: &Vec<TicketMetadata>, id: &String) -> (r: Option<usize>)
    ensures
        match r {
            Some(i) => i < tickets@.len() && tickets@[i as int].ticket_id@ == id@,
            None => !has_ticket(tickets@, id@),
        },
{
    let n = tickets.len();
    let mut i: usize = 0;
    while i < n
        invariant
            i <= n,
            n == tickets@.len(),
            forall|k: int| #![trigger tickets@[k]] 0 <= k < i ==> tickets@[k].ticket_id@ != id@,
        decreases n - i,
    {
        if tickets[i].ticket_id == *id {
            return Some(i);
        }
        i += 1;
    }
    None
}

impl Contract {
    /// Sets up an empty ledger owned by `owner_id`.
    pub fn new(owner_id: String, metadata: MeowRushContractMetadata) -> (c: Contract)
        ensures
            wf(c),
            c.owner_id == owner_id,
            c.metadata == metadata,
            c.games@.len() == 0,
            c.tickets@.len() == 0,
            c.pending@.len() == 0,
    {
        Contract {
            owner_id,
            metadata,
            games: Vec::new(),
            tickets: Vec::new(),
            pending: Vec::new(),
        }
    }

    /// The stored unit price of one ticket type: a pure read.
    pub fn price_of(&self, game_id: &String, ticket_type: &String) -> (r: Result<u128, SaleError>)
        requires
            wf(*self),
        ensures
            match r {
                Ok(p) => has_info(self.games@, game_id@, ticket_type@) && p == unit_price_of(
                    self.games@,
                    game_id@,
                    ticket_type@,
                ),
                Err(e) => e == SaleError::NotFound && !has_info(self.games@, game_id@,
                ticket_type@),
            },
    {
        let gi = match find_game(&self.games, game_id) {
            Some(gi) => gi,
            None => {
                return Err(SaleError::NotFound);
            },
        };
        proof {
            assert(has_game(self.games@, game_id@));
            lemma_game_index(self.games@, game_id@);
        }
        let ti = match find_tt(&self.games[gi].ticket_infos, ticket_type) {
            Some(ti) => ti,
            None => {
                return Err(SaleError::NotFound);
            },
        };
        proof {
            assert(has_tt(the_game(self.games@, game_id@).ticket_infos@, ticket_type@));
            lemma_tt_index(self.games@[gi as int].ticket_infos@, ticket_type@);
        }
        Ok(self.games[gi].ticket_infos[ti].price)
    }

    /// The whole catalog, in insertion order.
    pub fn get_all_games(&self) -> (r: Vec<GameMetadata>)
        ensures
            r@.len() == self.games@.len(),
            forall|k: int| 0 <= k < r@.len() ==> game_like(self.games@[k], #[trigger] r@[k]),
    {
        let mut out: Vec<GameMetadata> = Vec::new();
        let n = self.games.len();
        let mut i: usize = 0;
        while i < n
            invariant
                i <= n,
                n == self.games@.len(),
                out@.len() == i,
                forall|k: int| 0 <= k < i ==> game_like(self.games@[k], #[trigger] out@[k]),
            decreases n - i,
        {
            out.push(clone_game(&self.games[i]));
            i += 1;
        }
        out
    }

    /// The games whose sale has already started at `now`, in catalog order.
    pub fn get_active_games(&self, now: u64) -> (r: Vec<GameMetadata>)
        ensures
            r@.len() == self.games@.filter(active_pred(now)).len(),
            forall|k: int| 0 <= k < r@.len() ==> game_like(
                self.games@.filter(active_pred(now))[k],
                #[trigger] r@[k],
            ),
    {
        let mut out: Vec<GameMetadata> = Vec::new();
        let n = self.games.len();
        let mut i: usize = 0;
        proof {
            assert(self.games@.subrange(0, 0).filter(active_pred(now)) =~= Seq::<
                GameMetadata,
            >::empty());
        }
        while i < n
            invariant
                i <= n,
                n == self.games@.len(),
                out@.len() == self.games@.subrange(0, i as int).filter(active_pred(now)).len(),
                forall|k: int| 0 <= k < out@.len() ==> game_like(
                    self.games@.subrange(0, i as int).filter(active_pred(now))[k],
                    #[trigger] out@[k],
                ),
            decreases n - i,
        {
            proof {
                lemma_filter_push(
                    self.games@.subrange(0, i as int),
                    active_pred(now),
                    self.games@[i as int],
                );
                assert(self.games@.subrange(0, i as int + 1) =~= self.games@.subrange(
                    0,
                    i as int,
                ).push(self.games@[i as int]));
            }
            if self.games[i].selling_start_time < now {
                proof {
                    assert(active_pred(now)(self.games@[i as int]));
                }
                out.push(clone_game(&self.games[i]));
            } else {
                proof {
                    assert(!active_pred(now)(self.games@[i as int]));
                }
            }
            i += 1;
        }
        proof {
            assert(self.games@.subrange(0, n as int) =~= self.games@);
        }
        out
    }

    /// One game's catalog entry, if it exists.
    pub fn game_metadata(&self, game_id: &String) -> (r: Option<GameMetadata>)
        requires
            wf(*self),
        ensures
            match r {
                Some(g) => has_game(self.games@, game_id@) && game_like(
                    the_game(self.games@, game_id@),
                    g,
                ),
                None => !has_game(self.games@, game_id@),
            },
    {
        match find_game(&self.games, game_id) {
            Some(gi) => {
                proof {
                    assert(has_game(self.games@, game_id@));
                    lemma_game_index(self.games@, game_id@);
                }
                Some(clone_game(&self.games[gi]))
            },
            None => None,
        }
    }

    /// One settlement-log entry, with its game's catalog entry attached
    /// when the game still exists.
    pub fn ticket_metadata(&self, token_id: &String) -> (r: Option<TicketMetadata>)
        requires
            wf(*self),
        ensures
            match r {
                Some(tk) => {
                    let e = the_ticket(self.tickets@, token_id@);
                    &&& has_ticket(self.tickets@, token_id@)
                    &&& tk.ticket_id == e.ticket_id
                    &&& tk.game_id == e.game_id
                    &&& tk.ticket_type == e.ticket_type
                    &&& tk.is_used == e.is_used
                    &&& tk.issued_at == e.issued_at
                    &&& tk.status == e.status
                    &&& if has_game(self.games@, e.game_id@) {
                        tk.game matches Some(g) && game_like(the_game(self.games@, e.game_id@), g)
                    } else {
                        tk.game is None
                    }
                },
                None => !has_ticket(self.tickets@, token_id@),
            },
    {
        let m = match find_ticket(&self.tickets, token_id) {
            Some(m) => m,
            None => {
                return None;
            },
        };
        proof {
            assert(has_ticket(self.tickets@, token_id@));
            crate::state::lemma_ticket_index(self.tickets@, token_id@);
        }
        let mut tk = clone_ticket(&self.tickets[m]);
        let game = match find_game(&self.games, &tk.game_id) {
            Some(gi) => {
                proof {
                    assert(has_game(self.games@, self.tickets@[m as int].game_id@));
                    lemma_game_index(self.games@, self.tickets@[m as int].game_id@);
                }
                Some(clone_game(&self.games[gi]))
            },
            None => None,
        };
        tk.game = game;
        Some(tk)
    }

    /// The ledger's own catalog metadata.
    pub fn ticket_contract_metadata(&self) -> (r: MeowRushContractMetadata)
        ensures
            r == self.metadata,
    {
        clone_contract_metadata(&self.metadata)
    }

    /// Atomically hands out the next reservation index of one ticket type
    /// and steps `sold` up: the single operation the supply safety rests
    /// on. No two calls can return the same index, because each call also
    /// steps `next_index`, which never goes back down.
    pub fn reserve(&mut self, game_id: &String, ticket_type: &String, now: u64) -> (r: Result<
        u64,
        SaleError,
    >)
        requires
            wf(*old(self)),
        ensures
            wf(*final(self)),
            match r {
                Ok(idx) => reserve_ok(*old(self), *final(self), game_id@, ticket_type@, now, idx),
                Err(e) => *final(self) == *old(self) && reserve_outcome(
                    *old(self),
                    game_id@,
                    ticket_type@,
                    now,
                ) == Some(e),
            },
    {
        let ghost pre = *self;
        let gi = match find_game(&self.games, game_id) {
            Some(gi) => gi,
            None => {
                return Err(SaleError::NotFound);
            },
        };
        proof {
            assert(has_game(pre.games@, game_id@));
            lemma_game_index(pre.games@, game_id@);
            assert(game_index(pre.games@, game_id@) == gi as int);
        }
        let ti = match find_tt(&self.games[gi].ticket_infos, ticket_type) {
            Some(ti) => ti,
            None => {
                proof {
                    assert(!has_tt(the_game(pre.games@, game_id@).ticket_infos@, ticket_type@));
                }
                return Err(SaleError::NotFound);
            },
        };
        proof {
            assert(infos_unique(pre.games@[gi as int].ticket_infos@));
            assert(has_tt(the_game(pre.games@, game_id@).ticket_infos@, ticket_type@));
            lemma_tt_index(pre.games@[gi as int].ticket_infos@, ticket_type@);
            assert(tt_index(pre.games@[gi as int].ticket_infos@, ticket_type@) == ti as int);
            assert(has_info(pre.games@, game_id@, ticket_type@));
        }
        if now < self.games[gi].selling_start_time {
            return Err(SaleError::SaleNotStarted);
        }
        let sold = self.games[gi].ticket_infos[ti].sold;
        let supply = self.games[gi].ticket_infos[ti].supply;
        let nx = self.games[gi].ticket_infos[ti].next_index;
        if sold >= supply || nx == u64::MAX {
            return Err(SaleError::SoldOut);
        }
        self.games[gi].ticket_infos[ti].sold = sold + 1;
        self.games[gi].ticket_infos[ti].next_index = nx + 1;
        proof {
            assert(seq_update_at(pre.games@, self.games@, gi as int));
            assert(same_except_infos(pre.games@[gi as int], self.games@[gi as int]));
            assert(seq_update_at(
                pre.games@[gi as int].ticket_infos@,
                self.games@[gi as int].ticket_infos@,
                ti as int,
            ));
            assert(info_reserved(
                pre.games@[gi as int].ticket_infos@[ti as int],
                self.games@[gi as int].ticket_infos@[ti as int],
            ));
            assert(games_reserved(pre.games@, self.games@, game_id@, ticket_type@));
            assert(confirmed_count(pre.tickets@, game_id@, ticket_type@) + pending_count(
                pre.pending@,
                game_id@,
                ticket_type@,
            ) <= sold);
            lemma_wf_games_updated(pre, *self, game_id@, ticket_type@);
        }
        Ok(nx)
    }

    /// Gives a reserved unit back to the pool: the compensation step for a
    /// reservation whose issuance is known to have failed. The caller owes
    /// the call exactly once per failed reservation; the demand that the
    /// confirmed and in-flight load sit strictly below `sold` is exactly
    /// "a reservation is outstanding here".
    pub fn release(&mut self, game_id: &String, ticket_type: &String)
        requires
            wf(*old(self)),
            has_info(old(self).games@, game_id@, ticket_type@),
            confirmed_count(old(self).tickets@, game_id@, ticket_type@) + pending_count(
                old(self).pending@,
                game_id@,
                ticket_type@,
            ) < sold_of(old(self).games@, game_id@, ticket_type@),
        ensures
            wf(*final(self)),
            release_ok(*old(self), *final(self), game_id@, ticket_type@),
    {
        let ghost pre = *self;
        let gi_opt = find_game(&self.games, game_id);
        proof {
            assert(gi_opt is Some);
        }
        let gi = gi_opt.unwrap();
        proof {
            lemma_game_index(pre.games@, game_id@);
            assert(game_index(pre.games@, game_id@) == gi as int);
        }
        let ti_opt = find_tt(&self.games[gi].ticket_infos, ticket_type);
        proof {
            assert(infos_unique(pre.games@[gi as int].ticket_infos@));
            assert(ti_opt is Some);
        }
        let ti = ti_opt.unwrap();
        proof {
            lemma_tt_index(pre.games@[gi as int].ticket_infos@, ticket_type@);
            assert(tt_index(pre.games@[gi as int].ticket_infos@, ticket_type@) == ti as int);
        }
        let sold = self.games[gi].ticket_infos[ti].sold;
        proof {
            assert(sold == sold_of(pre.games@, game_id@, ticket_type@));
            assert(sold >= 1);
        }
        self.games[gi].ticket_infos[ti].sold = sold - 1;
        proof {
            assert(seq_update_at(pre.games@, self.games@, gi as int));
            assert(same_except_infos(pre.games@[gi as int], self.games@[gi as int]));
            assert(seq_update_at(
                pre.games@[gi as int].ticket_infos@,
                self.games@[gi as int].ticket_infos@,
                ti as int,
            ));
            assert(info_released(
                pre.games@[gi as int].ticket_infos@[ti as int],
                self.games@[gi as int].ticket_infos@[ti as int],
            ));
            lemma_wf_games_updated(pre, *self, game_id@, ticket_type@);
        }
    }

    /// Records one issuance: the speculative `Pending` settlement entry
    /// for `token_id`, and the pending context its callback will consume.
    /// The actual identity mint is requested by the caller; the entry is
    /// worthless until that mint is confirmed, which lets the redemption
    /// gate fail closed meanwhile.
    pub fn nft_private_mint(
        &mut self,
        token_id: String,
        receiver_id: String,
        game_id: &String,
        ticket_type: &String,
        reservation_index: u64,
        payment: u128,
        now: u64,
    ) -> (tk: TicketMetadata)
        requires
            wf(*old(self)),
            has_info(old(self).games@, game_id@, ticket_type@),
            token_id@ == spec_ticket_id(game_id@, ticket_type@, reservation_index as nat),
            !has_ticket(old(self).tickets@, token_id@),
            confirmed_count(old(self).tickets@, game_id@, ticket_type@) + pending_count(
                old(self).pending@,
                game_id@,
                ticket_type@,
            ) < sold_of(old(self).games@, game_id@, ticket_type@),
        ensures
            wf(*final(self)),
            issue_recorded(
                *old(self),
                *final(self),
                game_id@,
                ticket_type@,
                reservation_index as nat,
                receiver_id@,
                payment,
                now,
            ),
            ticket_entry_shape(tk, game_id@, ticket_type@, reservation_index as nat, now),
    {
        let ghost pre = *self;
        let entry = TicketMetadata {
            ticket_id: token_id.clone(),
            game_id: game_id.clone(),
            ticket_type: ticket_type.clone(),
            is_used: false,
            issued_at: now,
            status: TicketStatus::Pending,
            game: None,
        };
        let tk = clone_ticket(&entry);
        let ctx = PendingPurchase {
            ticket_id: token_id,
            game_id: game_id.clone(),
            ticket_type: ticket_type.clone(),
            buyer: receiver_id,
            payment,
        };
        self.tickets.push(entry);
        self.pending.push(ctx);
        proof {
            assert(self.tickets@.drop_last() =~= pre.tickets@);
            assert(self.pending@.drop_last() =~= pre.pending@);
            lemma_wf_issue_recorded(
                pre,
                *self,
                game_id@,
                ticket_type@,
                reservation_index as nat,
                receiver_id@,
                payment,
                now,
            );
        }
        tk
    }

    /// The purchase saga, up to the issuance request: validates the
    /// request, reserves a unit, derives the deterministic ticket id, and
    /// records the `Pending` settlement entry and the pending context. The
    /// caller then requests the identity mint for the receipt's ticket id
    /// and later reports the outcome through `check_mint`. Any refusal
    /// leaves the ledger exactly as it was, so a refused buyer keeps
    /// their funds.
    pub fn buy_ticket(
        &mut self,
        game_id: &String,
        ticket_type: &String,
        buyer: String,
        payment: u128,
        now: u64,
    ) -> (r: Result<PurchaseReceipt, SaleError>)
        requires
            wf(*old(self)),
        ensures
            wf(*final(self)),
            match r {
                Ok(receipt) => purchase_ok(
                    *old(self),
                    *final(self),
                    game_id@,
                    ticket_type@,
                    buyer@,
                    payment,
                    now,
                    receipt,
                ),
                Err(e) => *final(self) == *old(self) && purchase_outcome(
                    *old(self),
                    game_id@,
                    ticket_type@,
                    payment,
                    now,
                ) == Some(e),
            },
    {
        let ghost pre = *self;
        let gi = match find_game(&self.games, game_id) {
            Some(gi) => gi,
            None => {
                return Err(SaleError::NotFound);
            },
        };
        proof {
            assert(has_game(pre.games@, game_id@));
            lemma_game_index(pre.games@, game_id@);
            assert(game_index(pre.games@, game_id@) == gi as int);
        }
        let ti = match find_tt(&self.games[gi].ticket_infos, ticket_type) {
            Some(ti) => ti,
            None => {
                proof {
                    assert(!has_tt(the_game(pre.games@, game_id@).ticket_infos@, ticket_type@));
                }
                return Err(SaleError::NotFound);
            },
        };
        proof {
            assert(infos_unique(pre.games@[gi as int].ticket_infos@));
            assert(has_tt(the_game(pre.games@, game_id@).ticket_infos@, ticket_type@));
            lemma_tt_index(pre.games@[gi as int].ticket_infos@, ticket_type@);
            assert(tt_index(pre.games@[gi as int].ticket_infos@, ticket_type@) == ti as int);
            assert(has_info(pre.games@, game_id@, ticket_type@));
        }
        if now < self.games[gi].selling_start_time {
            return Err(SaleError::SaleNotStarted);
        }
        let sold = self.games[gi].ticket_infos[ti].sold;
        let supply = self.games[gi].ticket_infos[ti].supply;
        let price = self.games[gi].ticket_infos[ti].price;
        let nx = self.games[gi].ticket_infos[ti].next_index;
        if sold >= supply {
            return Err(SaleError::SoldOut);
        }
        if payment < price {
            return Err(SaleError::InsufficientPayment);
        }
        if nx == u64::MAX {
            return Err(SaleError::SoldOut);
        }
        let tid = make_ticket_id(game_id, ticket_type, nx);
        match find_ticket(&self.tickets, &tid) {
            Some(_) => {
                return Err(SaleError::SoldOut);
            },
            None => {},
        }
        proof {
            assert(purchase_outcome(pre, game_id@, ticket_type@, payment, now) is None);
        }
        let idx = match self.reserve(game_id, ticket_type, now) {
            Ok(i) => i,
            Err(_) => {
                proof {
                    assert(false);
                }
                return Err(SaleError::SoldOut);
            },
        };
        let ghost mid = *self;
        proof {
            assert(reserve_ok(pre, mid, game_id@, ticket_type@, now, idx));
            lemma_info_point_update(pre.games@, mid.games@, game_id@, ticket_type@);
            assert(has_info(mid.games@, game_id@, ticket_type@));
            assert(info_of(mid.games@, game_id@, ticket_type@) == mid.games@[gi as int].ticket_infos@[ti as int]);
            assert(sold_of(mid.games@, game_id@, ticket_type@) == sold + 1);
            assert(confirmed_count(pre.tickets@, game_id@, ticket_type@) + pending_count(
                pre.pending@,
                game_id@,
                ticket_type@,
            ) <= sold);
            assert(confirmed_count(mid.tickets@, game_id@, ticket_type@) + pending_count(
                mid.pending@,
                game_id@,
                ticket_type@,
            ) < sold_of(mid.games@, game_id@, ticket_type@));
            assert(!has_ticket(mid.tickets@, tid@));
            assert(idx == nx);
        }
        let tid2 = tid.clone();
        let _entry = self.nft_private_mint(
            tid,
            buyer,
            game_id,
            ticket_type,
            idx,
            payment,
            now,
        );
        let receipt = PurchaseReceipt { ticket_id: tid2, reservation_index: idx };
        proof {
            assert(issue_recorded(
                mid,
                *self,
                game_id@,
                ticket_type@,
                idx as nat,
                buyer@,
                payment,
                now,
            ));
            assert(games_reserved(pre.games@, self.games@, game_id@, ticket_type@));
            assert(self.tickets@.drop_last() == pre.tickets@);
            assert(self.pending@.drop_last() == pre.pending@);
            assert(purchase_ok(
                pre,
                *self,
                game_id@,
                ticket_type@,
                buyer@,
                payment,
                now,
                receipt,
            ));
        }
        Ok(receipt)
    }

    /// The issuance callback: matched to its purchase by the ticket id,
    /// never by arrival order. On a failed mint it compensates — the
    /// entry becomes `Compensated`, the reserved unit is released, and the
    /// returned action tells the caller to pay the recorded amount back to
    /// the recorded buyer.
    pub fn check_mint(&mut self, token_id: &String, mint_succeeded: bool) -> (r: Result<
        Option<RefundAction>,
        SaleError,
    >)
        requires
            wf(*old(self)),
        ensures
            wf(*final(self)),
            callback_step(*old(self), *final(self), token_id@, mint_succeeded, r),
    {
        let ghost pre = *self;
        let k = match find_pending(&self.pending, token_id) {
            Some(k) => k,
            None => {
                return Err(SaleError::NotFound);
            },
        };
        proof {
            assert(has_pending(pre.pending@, token_id@));
            lemma_pending_index(pre.pending@, token_id@);
            assert(pending_index(pre.pending@, token_id@) == k as int);
            assert(pre.pending@[k as int].ticket_id@ == token_id@);
            assert(has_ticket(pre.tickets@, token_id@));
        }
        let m_opt = find_ticket(&self.tickets, token_id);
        proof {
            assert(m_opt is Some);
        }
        let m = m_opt.unwrap();
        proof {
            lemma_ticket_index(pre.tickets@, token_id@);
            assert(ticket_index(pre.tickets@, token_id@) == m as int);
        }
        let p = self.pending.remove(k);
        if mint_succeeded {
            self.tickets[m].status = TicketStatus::Confirmed;
            proof {
                assert(seq_update_at(pre.tickets@, self.tickets@, m as int));
                assert(status_resolved(
                    pre.tickets@[m as int],
                    self.tickets@[m as int],
                    TicketStatus::Confirmed,
                ));
                lemma_wf_context_resolved(pre, *self, token_id@, TicketStatus::Confirmed);
            }
            Ok(None)
        } else {
            self.tickets[m].status = TicketStatus::Compensated;
            let ghost mid = *self;
            proof {
                assert(seq_update_at(pre.tickets@, mid.tickets@, m as int));
                assert(status_resolved(
                    pre.tickets@[m as int],
                    mid.tickets@[m as int],
                    TicketStatus::Compensated,
                ));
                lemma_wf_context_resolved(pre, mid, token_id@, TicketStatus::Compensated);
                let pg = pre.pending@[k as int].game_id@;
                let pt = pre.pending@[k as int].ticket_type@;
                assert(has_info(pre.games@, pg, pt));
                lemma_game_index(pre.games@, pg);
                let gi2 = game_index(pre.games@, pg);
                assert(infos_unique(pre.games@[gi2].ticket_infos@));
                lemma_tt_index(pre.games@[gi2].ticket_infos@, pt);
                let ti2 = tt_index(pre.games@[gi2].ticket_infos@, pt);
                assert(pre.games@[gi2].ticket_infos@[ti2] == info_of(pre.games@, pg, pt));
                assert(confirmed_count(pre.tickets@, pg, pt) + pending_count(pre.pending@, pg, pt)
                    <= sold_of(pre.games@, pg, pt));
                assert(confirmed_count(mid.tickets@, pg, pt) + pending_count(mid.pending@, pg, pt)
                    < sold_of(mid.games@, pg, pt));
            }
            self.release(&p.game_id, &p.ticket_type);
            proof {
                assert(games_released(pre.games@, self.games@, p.game_id@, p.ticket_type@));
            }
            let refund = RefundAction { buyer: p.buyer, amount: p.payment };
            Ok(Some(refund))
        }
    }

    /// The redemption gate: marks a confirmed ticket used, exactly once.
    /// `registered_owner` is the identity registry's answer for this
    /// ticket id; only its match with `caller` passes. A second redemption
    /// is refused with `AlreadyUsed` and changes nothing.
    pub fn check_ticket(
        &mut self,
        ticket_id: &String,
        caller: &String,
        registered_owner: Option<String>,
    ) -> (r: Result<(), SaleError>)
        requires
            wf(*old(self)),
        ensures
            wf(*final(self)),
            redeem_step(
                *old(self),
                *final(self),
                ticket_id@,
                caller@,
                opt_string_view(registered_owner),
                r,
            ),
    {
        let ghost pre = *self;
        let m = match find_ticket(&self.tickets, ticket_id) {
            Some(m) => m,
            None => {
                return Err(SaleError::NotFound);
            },
        };
        proof {
            assert(has_ticket(pre.tickets@, ticket_id@));
            lemma_ticket_index(pre.tickets@, ticket_id@);
            assert(ticket_index(pre.tickets@, ticket_id@) == m as int);
        }
        if !(self.tickets[m].status == TicketStatus::Confirmed) {
            return Err(SaleError::NotFound);
        }
        let owner_matches = match &registered_owner {
            None => false,
            Some(o) => *o == *caller,
        };
        if !owner_matches {
            return Err(SaleError::NotOwner);
        }
        if self.tickets[m].is_used {
            return Err(SaleError::AlreadyUsed);
        }
        self.tickets[m].is_used = true;
        proof {
            assert(seq_update_at(pre.tickets@, self.tickets@, m as int));
            assert(used_set(pre.tickets@[m as int], self.tickets@[m as int]));
            lemma_wf_ticket_used(pre, *self, ticket_id@);
        }
        Ok(())
    }

    /// Adds a fresh ticket type to an existing game; only the operator may.
    pub fn add_ticket_info(&mut self, caller: &String, game_id: &String, info: TicketInfo) -> (r:
        Result<(), SaleError>)
        requires
            wf(*old(self)),
            info.sold <= info.supply,
            has_game(old(self).games@, game_id@) ==> !has_tt(
                the_game(old(self).games@, game_id@).ticket_infos@,
                info.ticket_type@,
            ),
        ensures
            wf(*final(self)),
            match r {
                Ok(_) => {
                    let gi = game_index(old(self).games@, game_id@);
                    &&& has_game(old(self).games@, game_id@)
                    &&& caller@ == old(self).owner_id@
                    &&& seq_update_at(old(self).games@, final(self).games@, gi)
                    &&& same_except_infos(
                        the_game(old(self).games@, game_id@),
                        final(self).games@[gi],
                    )
                    &&& final(self).games@[gi].ticket_infos@ == the_game(
                        old(self).games@,
                        game_id@,
                    ).ticket_infos@.push(info)
                    &&& final(self).tickets == old(self).tickets
                    &&& final(self).pending == old(self).pending
                    &&& final(self).owner_id == old(self).owner_id
                    &&& final(self).metadata == old(self).metadata
                },
                Err(e) => *final(self) == *old(self) && e == (
                if !has_game(old(self).games@, game_id@) {
                    SaleError::NotFound
                } else {
                    SaleError::Unauthorized
                }) && (e == SaleError::Unauthorized ==> caller@ != old(self).owner_id@),
            },
    {
        let ghost pre = *self;
        let gi = match find_game(&self.games, game_id) {
            Some(gi) => gi,
            None => {
                return Err(SaleError::NotFound);
            },
        };
        proof {
            assert(has_game(pre.games@, game_id@));
            lemma_game_index(pre.games@, game_id@);
            assert(game_index(pre.games@, game_id@) == gi as int);
        }
        if !(*caller == self.owner_id) {
            return Err(SaleError::Unauthorized);
        }
        self.games[gi].ticket_infos.push(info);
        proof {
            assert(self.games@[gi as int].ticket_infos@ =~= pre.games@[gi as int].ticket_infos@
                .push(info));
            assert(seq_update_at(pre.games@, self.games@, gi as int));
            assert(same_except_infos(pre.games@[gi as int], self.games@[gi as int]));
            lemma_wf_info_pushed(pre, *self, game_id@, info);
        }
        Ok(())
    }

    /// Edits an existing ticket type's price, supply and sale start; the
    /// stored `sold` count and the reservation index are kept, so the
    /// supply invariant and id freshness survive the edit.
    pub fn edit_ticket_info(&mut self, caller: &String, game_id: &String, info: TicketInfo) -> (r:
        Result<(), SaleError>)
        requires
            wf(*old(self)),
            has_info(old(self).games@, game_id@, info.ticket_type@) ==> info.supply >= sold_of(
                old(self).games@,
                game_id@,
                info.ticket_type@,
            ),
        ensures
            wf(*final(self)),
            match r {
                Ok(_) => {
                    let gi = game_index(old(self).games@, game_id@);
                    let og = the_game(old(self).games@, game_id@);
                    let ti = tt_index(og.ticket_infos@, info.ticket_type@);
                    let n = final(self).games@[gi].ticket_infos@[ti];
                    &&& has_info(old(self).games@, game_id@, info.ticket_type@)
                    &&& caller@ == old(self).owner_id@
                    &&& seq_update_at(old(self).games@, final(self).games@, gi)
                    &&& same_except_infos(og, final(self).games@[gi])
                    &&& seq_update_at(og.ticket_infos@, final(self).games@[gi].ticket_infos@, ti)
                    &&& n.supply == info.supply
                    &&& n.ticket_type == info.ticket_type
                    &&& n.price == info.price
                    &&& n.selling_start_time == info.selling_start_time
                    &&& n.sold == sold_of(old(self).games@, game_id@, info.ticket_type@)
                    &&& n.next_index == crate::state::next_of(
                        old(self).games@,
                        game_id@,
                        info.ticket_type@,
                    )
                    &&& final(self).tickets == old(self).tickets
                    &&& final(self).pending == old(self).pending
                    &&& final(self).owner_id == old(self).owner_id
                    &&& final(self).metadata == old(self).metadata
                },
                Err(e) => *final(self) == *old(self) && e == (
                if !has_game(old(self).games@, game_id@) {
                    SaleError::NotFound
                } else if caller@ != old(self).owner_id@ {
                    SaleError::Unauthorized
                } else {
                    SaleError::NotFound
                }) && (caller@ == old(self).owner_id@ ==> !has_info(
                    old(self).games@,
                    game_id@,
                    info.ticket_type@,
                )),
            },
    {
        let ghost pre = *self;
        let gi = match find_game(&self.games, game_id) {
            Some(gi) => gi,
            None => {
                return Err(SaleError::NotFound);
            },
        };
        proof {
            assert(has_game(pre.games@, game_id@));
            lemma_game_index(pre.games@, game_id@);
            assert(game_index(pre.games@, game_id@) == gi as int);
        }
        if !(*caller == self.owner_id) {
            return Err(SaleError::Unauthorized);
        }
        let ti = match find_tt(&self.games[gi].ticket_infos, &info.ticket_type) {
            Some(ti) => ti,
            None => {
                proof {
                    assert(!has_tt(
                        the_game(pre.games@, game_id@).ticket_infos@,
                        info.ticket_type@,
                    ));
                }
                return Err(SaleError::NotFound);
            },
        };
        proof {
            assert(infos_unique(pre.games@[gi as int].ticket_infos@));
            assert(has_tt(the_game(pre.games@, game_id@).ticket_infos@, info.ticket_type@));
            lemma_tt_index(pre.games@[gi as int].ticket_infos@, info.ticket_type@);
            assert(tt_index(pre.games@[gi as int].ticket_infos@, info.ticket_type@) == ti as int);
            assert(has_info(pre.games@, game_id@, info.ticket_type@));
        }
        let stored_sold = self.games[gi].ticket_infos[ti].sold;
        let stored_next = self.games[gi].ticket_infos[ti].next_index;
        let ghost t_view = info.ticket_type@;
        self.games[gi].ticket_infos[ti] = TicketInfo {
            supply: info.supply,
            ticket_type: info.ticket_type,
            price: info.price,
            sold: stored_sold,
            selling_start_time: info.selling_start_time,
            next_index: stored_next,
        };
        proof {
            assert(seq_update_at(pre.games@, self.games@, gi as int));
            assert(same_except_infos(pre.games@[gi as int], self.games@[gi as int]));
            assert(seq_update_at(
                pre.games@[gi as int].ticket_infos@,
                self.games@[gi as int].ticket_infos@,
                ti as int,
            ));
            assert(confirmed_count(pre.tickets@, game_id@, t_view) + pending_count(
                pre.pending@,
                game_id@,
                t_view,
            ) <= stored_sold);
            lemma_wf_games_updated(pre, *self, game_id@, t_view);
        }
        Ok(())
    }

    /// Creates a game with its ticket types; only the operator may, and a
    /// game id is never taken twice. Prices come in whole currency units
    /// and are stored in minor units with the issuance fee baked in; each
    /// type starts with nothing sold and its reservation index at zero.
    pub fn create_new_game(
        &mut self,
        caller: &String,
        game_id: String,
        game_title: Option<String>,
        game_description: Option<String>,
        game_banner: Option<String>,
        ticket_types: Vec<String>,
        tickets_supply: Vec<u32>,
        ticket_prices: Vec<u128>,
        selling_start_time: u64,
    ) -> (r: Result<(), SaleError>)
        requires
            wf(*old(self)),
            !has_game(old(self).games@, game_id@),
            ticket_types@.len() == tickets_supply@.len(),
            ticket_types@.len() == ticket_prices@.len(),
            forall|i: int, j: int| #![trigger ticket_types@[i], ticket_types@[j]]
                0 <= i < ticket_types@.len() && 0 <= j < ticket_types@.len() && i != j
                    ==> ticket_types@[i]@ != ticket_types@[j]@,
            forall|i: int| 0 <= i < ticket_prices@.len() ==> #[trigger] ticket_prices@[i]
                <= MAX_UNIT_PRICE,
        ensures
            wf(*final(self)),
            match r {
                Ok(_) => {
                    let ng = final(self).games@.last();
                    &&& caller@ == old(self).owner_id@
                    &&& final(self).games@.len() == old(self).games@.len() + 1
                    &&& final(self).games@.drop_last() == old(self).games@
                    &&& ng.game_id == game_id
                    &&& ng.game_title == game_title
                    &&& ng.game_description == game_description
                    &&& ng.game_banner == game_banner
                    &&& ng.selling_start_time == selling_start_time
                    &&& ng.ticket_infos@.len() == ticket_types@.len()
                    &&& forall|i: int| #![trigger ng.ticket_infos@[i]]
                        0 <= i < ticket_types@.len() ==> {
                            let inf = ng.ticket_infos@[i];
                            &&& inf.ticket_type == ticket_types@[i]
                            &&& inf.supply == tickets_supply@[i]
                            &&& inf.price == ticket_prices@[i] * UNIT_SCALE + MINT_FEE
                            &&& inf.sold == 0
                            &&& inf.next_index == 0
                            &&& inf.selling_start_time == Some(0u64)
                        }
                    &&& final(self).tickets == old(self).tickets
                    &&& final(self).pending == old(self).pending
                    &&& final(self).owner_id == old(self).owner_id
                    &&& final(self).metadata == old(self).metadata
                },
                Err(e) => *final(self) == *old(self) && e == SaleError::Unauthorized && caller@
                    != old(self).owner_id@,
            },
    {
        let ghost pre = *self;
        if !(*caller == self.owner_id) {
            return Err(SaleError::Unauthorized);
        }
        let n = ticket_types.len();
        let mut infos: Vec<TicketInfo> = Vec::new();
        let mut i: usize = 0;
        while i < n
            invariant
                i <= n,
                n == ticket_types@.len(),
                n == tickets_supply@.len(),
                n == ticket_prices@.len(),
                forall|k: int| 0 <= k < n ==> #[trigger] ticket_prices@[k] <= MAX_UNIT_PRICE,
                infos@.len() == i,
                forall|k: int| #![trigger infos@[k]] 0 <= k < i ==> {
                    let inf = infos@[k];
                    &&& inf.ticket_type == ticket_types@[k]
                    &&& inf.supply == tickets_supply@[k]
                    &&& inf.price == ticket_prices@[k] * UNIT_SCALE + MINT_FEE
                    &&& inf.sold == 0
                    &&& inf.next_index == 0
                    &&& inf.selling_start_time == Some(0u64)
                },
            decreases n - i,
        {
            proof {
                assert(ticket_prices@[i as int] * UNIT_SCALE <= MAX_UNIT_PRICE * UNIT_SCALE) by (
                nonlinear_arith)
                    requires
                        ticket_prices@[i as int] <= MAX_UNIT_PRICE,
                ;
            }
            let price: u128 = ticket_prices[i] * UNIT_SCALE + MINT_FEE;
            infos.push(
                TicketInfo {
                    supply: tickets_supply[i],
                    ticket_type: ticket_types[i].clone(),
                    price,
                    sold: 0u32,
                    selling_start_time: Some(0u64),
                    next_index: 0u64,
                },
            );
            i += 1;
        }
        let ng = GameMetadata {
            game_id,
            game_title,
            game_description,
            ticket_infos: infos,
            game_banner,
            selling_start_time,
        };
        self.games.push(ng);
        proof {
            assert(self.games@.drop_last() =~= pre.games@);
            assert(infos_unique(self.games@.last().ticket_infos@));
            lemma_wf_game_pushed(pre, *self);
        }
        Ok(())
    }
}

} // verus!
