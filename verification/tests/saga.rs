//! The purchase saga end to end: reservation, confirmation, compensation
//! and redemption.

use ticket::types::Contract;
use ticket::types::MeowRushContractMetadata;
use ticket::types::SaleError;
use ticket::types::TicketStatus;
use ticket::types::MINT_FEE;
use ticket::types::UNIT_SCALE;

fn operator() -> String {
    "operator".to_string()
}

fn fresh_contract() -> Contract {
    let md = MeowRushContractMetadata {
        spec_version: "nft-1.0.0".to_string(),
        name: "MeowRush".to_string(),
        symbol: "MEOW".to_string(),
        description: None,
    };
    Contract::new(operator(), md)
}

fn one_game_contract(supply: u32, unit_price: u128, sale_start: u64) -> Contract {
    let mut c = fresh_contract();
    let r = c.create_new_game(
        &operator(),
        "g1".to_string(),
        Some("Game One".to_string()),
        None,
        None,
        vec!["vip".to_string()],
        vec![supply],
        vec![unit_price],
        sale_start,
    );
    assert!(r.is_ok());
    c
}

fn stored_price(c: &Contract) -> u128 {
    c.price_of(&"g1".to_string(), &"vip".to_string()).unwrap()
}

fn sold_count(c: &Contract, game: &str, tt: &str) -> u32 {
    let g = c.game_metadata(&game.to_string()).unwrap();
    let info = g
        .ticket_infos
        .iter()
        .find(|i| i.ticket_type == tt)
        .unwrap();
    info.sold
}

#[test]
fn first_buyer_gets_index_zero_and_second_is_sold_out() {
    let mut c = one_game_contract(1, 100, 0);
    let price = stored_price(&c);
    let receipt = c
        .buy_ticket(&"g1".to_string(), &"vip".to_string(), "alice".to_string(), price, 1)
        .ok()
        .unwrap();
    assert_eq!(receipt.reservation_index, 0);
    assert_eq!(receipt.ticket_id, "g1.vip.0");
    let confirm = c.check_mint(&receipt.ticket_id, true).unwrap();
    assert!(confirm.is_none());
    // the only unit is gone before any of B's funds would move
    let r2 = c.buy_ticket(&"g1".to_string(), &"vip".to_string(), "bob".to_string(), price, 2);
    assert!(matches!(r2, Err(SaleError::SoldOut)));
    assert_eq!(sold_count(&c, "g1", "vip"), 1);
}

#[test]
fn failed_issuance_is_compensated_and_index_is_retired() {
    let mut c = one_game_contract(1, 100, 0);
    let price = stored_price(&c);
    let receipt = c
        .buy_ticket(&"g1".to_string(), &"vip".to_string(), "alice".to_string(), price, 1)
        .ok()
        .unwrap();
    assert_eq!(receipt.reservation_index, 0);
    let refund = c.check_mint(&receipt.ticket_id, false).unwrap().unwrap();
    assert_eq!(refund.buyer, "alice");
    assert_eq!(refund.amount, price);
    // sold went back to its pre-reservation value
    assert_eq!(sold_count(&c, "g1", "vip"), 0);
    // the compensated entry stays, flagged, and its id is never reused
    let orphan = c.ticket_metadata(&"g1.vip.0".to_string()).unwrap();
    assert_eq!(orphan.status, TicketStatus::Compensated);
    let receipt2 = c
        .buy_ticket(&"g1".to_string(), &"vip".to_string(), "bob".to_string(), price, 2)
        .ok()
        .unwrap();
    assert_eq!(receipt2.reservation_index, 1);
    assert_eq!(receipt2.ticket_id, "g1.vip.1");
    assert!(c.check_mint(&receipt2.ticket_id, true).unwrap().is_none());
}

#[test]
fn underpayment_is_refused_without_any_ledger_change() {
    let mut c = one_game_contract(3, 100, 0);
    let price = stored_price(&c);
    let r = c.buy_ticket(
        &"g1".to_string(),
        &"vip".to_string(),
        "alice".to_string(),
        price - 1,
        1,
    );
    assert!(matches!(r, Err(SaleError::InsufficientPayment)));
    assert_eq!(sold_count(&c, "g1", "vip"), 0);
    assert!(c.ticket_metadata(&"g1.vip.0".to_string()).is_none());
}

#[test]
fn purchase_before_sale_start_is_refused() {
    let mut c = one_game_contract(3, 100, 100);
    let price = stored_price(&c);
    let r = c.buy_ticket(&"g1".to_string(), &"vip".to_string(), "alice".to_string(), price, 5);
    assert!(matches!(r, Err(SaleError::SaleNotStarted)));
    // at the boundary the sale is open
    let r2 = c.buy_ticket(&"g1".to_string(), &"vip".to_string(), "alice".to_string(), price, 100);
    assert!(r2.is_ok());
}

#[test]
fn unknown_game_type_and_callback_are_not_found() {
    let mut c = one_game_contract(3, 100, 0);
    let price = stored_price(&c);
    let r = c.buy_ticket(&"nope".to_string(), &"vip".to_string(), "a".to_string(), price, 1);
    assert!(matches!(r, Err(SaleError::NotFound)));
    let r = c.buy_ticket(&"g1".to_string(), &"gold".to_string(), "a".to_string(), price, 1);
    assert!(matches!(r, Err(SaleError::NotFound)));
    assert!(matches!(
        c.price_of(&"g1".to_string(), &"gold".to_string()),
        Err(SaleError::NotFound)
    ));
    assert!(matches!(
        c.check_mint(&"g1.vip.7".to_string(), true),
        Err(SaleError::NotFound)
    ));
}

#[test]
fn redemption_succeeds_once_then_reports_already_used() {
    let mut c = one_game_contract(1, 100, 0);
    let price = stored_price(&c);
    let receipt = c
        .buy_ticket(&"g1".to_string(), &"vip".to_string(), "alice".to_string(), price, 1)
        .ok()
        .unwrap();
    assert!(c.check_mint(&receipt.ticket_id, true).unwrap().is_none());
    let first = c.check_ticket(&receipt.ticket_id, &"alice".to_string(), Some("alice".to_string()));
    assert!(first.is_ok());
    assert!(c.ticket_metadata(&receipt.ticket_id).unwrap().is_used);
    let second = c.check_ticket(
        &receipt.ticket_id,
        &"alice".to_string(),
        Some("alice".to_string()),
    );
    assert!(matches!(second, Err(SaleError::AlreadyUsed)));
    assert!(c.ticket_metadata(&receipt.ticket_id).unwrap().is_used);
}

#[test]
fn redemption_by_anyone_but_the_owner_is_refused() {
    let mut c = one_game_contract(1, 100, 0);
    let price = stored_price(&c);
    let receipt = c
        .buy_ticket(&"g1".to_string(), &"vip".to_string(), "alice".to_string(), price, 1)
        .ok()
        .unwrap();
    assert!(c.check_mint(&receipt.ticket_id, true).unwrap().is_none());
    let r = c.check_ticket(&receipt.ticket_id, &"mallory".to_string(), Some("alice".to_string()));
    assert!(matches!(r, Err(SaleError::NotOwner)));
    let r = c.check_ticket(&receipt.ticket_id, &"alice".to_string(), None);
    assert!(matches!(r, Err(SaleError::NotOwner)));
    assert!(!c.ticket_metadata(&receipt.ticket_id).unwrap().is_used);
}

#[test]
fn unconfirmed_entries_fail_closed_at_the_redemption_gate() {
    let mut c = one_game_contract(2, 100, 0);
    let price = stored_price(&c);
    let receipt = c
        .buy_ticket(&"g1".to_string(), &"vip".to_string(), "alice".to_string(), price, 1)
        .ok()
        .unwrap();
    // no callback yet: the entry exists but is only Pending
    let r = c.check_ticket(&receipt.ticket_id, &"alice".to_string(), Some("alice".to_string()));
    assert!(matches!(r, Err(SaleError::NotFound)));
    // a wholly unknown ticket id is equally refused
    let r = c.check_ticket(&"g1.vip.9".to_string(), &"alice".to_string(), Some("alice".to_string()));
    assert!(matches!(r, Err(SaleError::NotFound)));
}

#[test]
fn supply_is_never_oversold() {
    let mut c = one_game_contract(2, 100, 0);
    let price = stored_price(&c);
    let mut confirmed: u32 = 0;
    for buyer in ["a", "b", "c"] {
        match c.buy_ticket(&"g1".to_string(), &"vip".to_string(), buyer.to_string(), price, 1) {
            Ok(receipt) => {
                assert!(c.check_mint(&receipt.ticket_id, true).unwrap().is_none());
                confirmed += 1;
            }
            Err(e) => assert!(matches!(e, SaleError::SoldOut)),
        }
    }
    assert_eq!(confirmed, 2);
    assert_eq!(sold_count(&c, "g1", "vip"), 2);
}

#[test]
fn reserve_hands_out_distinct_indices_and_release_gives_one_back() {
    let mut c = one_game_contract(5, 100, 0);
    let i = c.reserve(&"g1".to_string(), &"vip".to_string(), 1).unwrap();
    let j = c.reserve(&"g1".to_string(), &"vip".to_string(), 1).unwrap();
    assert_eq!(i, 0);
    assert_eq!(j, 1);
    assert_eq!(sold_count(&c, "g1", "vip"), 2);
    c.release(&"g1".to_string(), &"vip".to_string());
    assert_eq!(sold_count(&c, "g1", "vip"), 1);
    // the released unit's index is still never handed out again
    let k = c.reserve(&"g1".to_string(), &"vip".to_string(), 1).unwrap();
    assert_eq!(k, 2);
}

#[test]
fn ticket_ids_render_multi_digit_indices() {
    let mut c = one_game_contract(11, 7, 0);
    let price = stored_price(&c);
    let mut last_id = String::new();
    for n in 0..11u32 {
        let receipt = c
            .buy_ticket(
                &"g1".to_string(),
                &"vip".to_string(),
                format!("buyer{}", n),
                price,
                1,
            )
            .ok()
            .unwrap();
        assert!(c.check_mint(&receipt.ticket_id, true).unwrap().is_none());
        last_id = receipt.ticket_id;
    }
    assert_eq!(last_id, "g1.vip.10");
}

#[test]
fn stored_price_bakes_in_the_issuance_fee() {
    let c = one_game_contract(1, 100, 0);
    assert_eq!(stored_price(&c), 100 * UNIT_SCALE + MINT_FEE);
}
