//! Catalog maintenance: games and ticket types, operator authorization,
//! and the catalog reads.

use ticket::types::Contract;
use ticket::types::MeowRushContractMetadata;
use ticket::types::SaleError;
use ticket::types::TicketInfo;
use ticket::types::MINT_FEE;
use ticket::types::UNIT_SCALE;

fn operator() -> String {
    "operator".to_string()
}

fn fresh_contract() -> Contract {
    let md = MeowRushContractMetadata {
        spec_version: "nft-1.0.0".to_string(),
        name: "MeowRush".to_string(),
        symbol: "MEOW".to_string(),
        description: Some("event tickets".to_string()),
    };
    Contract::new(operator(), md)
}

fn make_game(c: &mut Contract, id: &str, start: u64) {
    let r = c.create_new_game(
        &operator(),
        id.to_string(),
        Some(format!("title of {}", id)),
        None,
        None,
        vec!["vip".to_string(), "standard".to_string()],
        vec![10, 100],
        vec![100, 7],
        start,
    );
    assert!(r.is_ok());
}

#[test]
fn contract_metadata_is_returned_as_stored() {
    let c = fresh_contract();
    let md = c.ticket_contract_metadata();
    assert_eq!(md.spec_version, "nft-1.0.0");
    assert_eq!(md.name, "MeowRush");
    assert_eq!(md.symbol, "MEOW");
    assert_eq!(md.description, Some("event tickets".to_string()));
}

#[test]
fn only_the_operator_may_touch_the_catalog() {
    let mut c = fresh_contract();
    let r = c.create_new_game(
        &"mallory".to_string(),
        "g1".to_string(),
        None,
        None,
        None,
        vec!["vip".to_string()],
        vec![1],
        vec![1],
        0,
    );
    assert!(matches!(r, Err(SaleError::Unauthorized)));
    make_game(&mut c, "g1", 0);
    let info = TicketInfo {
        supply: 5,
        ticket_type: "gold".to_string(),
        price: 1,
        sold: 0,
        selling_start_time: Some(0),
        next_index: 0,
    };
    let r = c.add_ticket_info(&"mallory".to_string(), &"g1".to_string(), info);
    assert!(matches!(r, Err(SaleError::Unauthorized)));
}

#[test]
fn adding_and_editing_ticket_types() {
    let mut c = fresh_contract();
    make_game(&mut c, "g1", 0);
    let info = TicketInfo {
        supply: 5,
        ticket_type: "gold".to_string(),
        price: 42,
        sold: 0,
        selling_start_time: Some(0),
        next_index: 0,
    };
    assert!(c.add_ticket_info(&operator(), &"g1".to_string(), info).is_ok());
    assert_eq!(c.price_of(&"g1".to_string(), &"gold".to_string()).unwrap(), 42);
    // a sale, then an edit: the sold count survives the edit
    let price = c.price_of(&"g1".to_string(), &"gold".to_string()).unwrap();
    let receipt = c
        .buy_ticket(&"g1".to_string(), &"gold".to_string(), "alice".to_string(), price, 1)
        .ok()
        .unwrap();
    assert!(c.check_mint(&receipt.ticket_id, true).unwrap().is_none());
    let edited = TicketInfo {
        supply: 6,
        ticket_type: "gold".to_string(),
        price: 4242,
        sold: 0,
        selling_start_time: Some(0),
        next_index: 0,
    };
    assert!(c.edit_ticket_info(&operator(), &"g1".to_string(), edited).is_ok());
    assert_eq!(c.price_of(&"g1".to_string(), &"gold".to_string()).unwrap(), 4242);
    let g = c.game_metadata(&"g1".to_string()).unwrap();
    let gold = g.ticket_infos.iter().find(|i| i.ticket_type == "gold").unwrap();
    assert_eq!(gold.sold, 1);
    assert_eq!(gold.supply, 6);
}

#[test]
fn editing_an_absent_game_or_type_is_not_found() {
    let mut c = fresh_contract();
    make_game(&mut c, "g1", 0);
    let info = TicketInfo {
        supply: 5,
        ticket_type: "gold".to_string(),
        price: 1,
        sold: 0,
        selling_start_time: Some(0),
        next_index: 0,
    };
    let r = c.edit_ticket_info(&operator(), &"g1".to_string(), info);
    assert!(matches!(r, Err(SaleError::NotFound)));
    let info2 = TicketInfo {
        supply: 5,
        ticket_type: "vip".to_string(),
        price: 1,
        sold: 0,
        selling_start_time: Some(0),
        next_index: 0,
    };
    let r = c.edit_ticket_info(&operator(), &"nope".to_string(), info2);
    assert!(matches!(r, Err(SaleError::NotFound)));
}

#[test]
fn catalog_reads_list_all_and_only_started_games() {
    let mut c = fresh_contract();
    make_game(&mut c, "early", 0);
    make_game(&mut c, "late", 1000);
    let all = c.get_all_games();
    assert_eq!(all.len(), 2);
    assert_eq!(all[0].game_id, "early");
    assert_eq!(all[1].game_id, "late");
    let active = c.get_active_games(500);
    assert_eq!(active.len(), 1);
    assert_eq!(active[0].game_id, "early");
    assert_eq!(active[0].game_title, Some("title of early".to_string()));
    assert!(c.game_metadata(&"nope".to_string()).is_none());
    let g = c.game_metadata(&"late".to_string()).unwrap();
    assert_eq!(g.selling_start_time, 1000);
    assert_eq!(g.ticket_infos.len(), 2);
    assert_eq!(g.ticket_infos[1].price, 7 * UNIT_SCALE + MINT_FEE);
}

#[test]
fn ticket_metadata_attaches_the_game() {
    let mut c = fresh_contract();
    make_game(&mut c, "g1", 0);
    let price = c.price_of(&"g1".to_string(), &"vip".to_string()).unwrap();
    let receipt = c
        .buy_ticket(&"g1".to_string(), &"vip".to_string(), "alice".to_string(), price, 5)
        .ok()
        .unwrap();
    assert!(c.check_mint(&receipt.ticket_id, true).unwrap().is_none());
    let tk = c.ticket_metadata(&receipt.ticket_id).unwrap();
    assert_eq!(tk.ticket_id, "g1.vip.0");
    assert_eq!(tk.game_id, "g1");
    assert_eq!(tk.ticket_type, "vip");
    assert_eq!(tk.issued_at, 5);
    assert!(!tk.is_used);
    let game = tk.game.unwrap();
    assert_eq!(game.game_id, "g1");
    assert!(c.ticket_metadata(&"g1.vip.9".to_string()).is_none());
}
