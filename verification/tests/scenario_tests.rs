use lending::contract::Contract;
use lending::errors::SysError;
use lending::item::{AlreadyUnderContract, Category, Item};
use lending::member::Member;
use lending::system::System;

fn member(name: &str, email: &str, phone: &str) -> Member {
    Member::new(name.to_owned(), email.to_owned(), phone.to_owned(), 0).expect("Should not fail")
}

#[test]
fn test_listing_reward_is_exactly_100() {
    let mut sys = System::new();
    let a = member("Ada", "ada@lovelace.org", "0101010101");
    sys.add_member(a.clone()).expect("add member");
    assert_eq!(sys.get_member(&a).unwrap().get_credits(), 0);
    let tool = Item::new(
        "Hammer".to_owned(),
        "A useful tool".to_owned(),
        Category::Tool,
        a.clone(),
        15,
        0,
    );
    sys.add_item(tool).expect("add item");
    assert_eq!(sys.get_member(&a).unwrap().get_credits(), 100);
}

#[test]
fn test_lending_scenario_five_days() {
    // A lists an item at 20 per day, B signs a five-day contract on day 0.
    let mut sys = System::new();
    let a = member("Ada", "ada@lovelace.org", "0101010101");
    let b = member("Grace", "grace@hopper.org", "0202020202");
    sys.add_member(a.clone()).expect("add member");
    sys.add_member(b.clone()).expect("add member");
    let mut game = Item::new(
        "Monopoly".to_owned(),
        "A Family Game".to_owned(),
        Category::Game,
        a.clone(),
        20,
        0,
    );
    let c = Contract::new(&a, &b, 1, 5, 100);
    game.add_contract(c).expect("add contract");
    sys.add_item(game).expect("add item");
    assert_eq!(sys.get_member(&a).unwrap().get_credits(), 100);
    assert_eq!(sys.get_member(&b).unwrap().get_credits(), 0);
    // each of the five advances settles one active day
    for day in 1..=5u64 {
        sys.incr_time().expect("settle");
        assert_eq!(sys.now(), day);
        assert_eq!(
            sys.get_member(&a).unwrap().get_credits(),
            100 + 20 * day as i64
        );
        assert_eq!(sys.get_member(&b).unwrap().get_credits(), -20 * day as i64);
    }
    assert_eq!(sys.get_member(&a).unwrap().get_credits(), 200);
    assert_eq!(sys.get_member(&b).unwrap().get_credits(), -100);
    // one more advance is past the window and transfers nothing
    sys.incr_time().expect("settle");
    assert_eq!(sys.get_member(&a).unwrap().get_credits(), 200);
    assert_eq!(sys.get_member(&b).unwrap().get_credits(), -100);
}

#[test]
fn test_remove_missing_member_leaves_store() {
    let mut sys = System::new();
    let a = member("Ada", "ada@lovelace.org", "0101010101");
    let ghost = member("Nobody", "nobody@nowhere.org", "0909090909");
    sys.add_member(a.clone()).expect("add member");
    assert_eq!(sys.get_members().len(), 1);
    assert_eq!(sys.remove_member(&ghost), Err(SysError::DoesntExist));
    assert_eq!(sys.get_members().len(), 1);
}

#[test]
fn test_remove_missing_item_leaves_store() {
    let mut sys = System::new();
    let a = member("Ada", "ada@lovelace.org", "0101010101");
    sys.add_member(a.clone()).expect("add member");
    let listed = Item::new(
        "Hammer".to_owned(),
        "A useful tool".to_owned(),
        Category::Tool,
        a.clone(),
        15,
        0,
    );
    let unlisted = Item::new(
        "Saw".to_owned(),
        "Another tool".to_owned(),
        Category::Tool,
        a.clone(),
        10,
        0,
    );
    sys.add_item(listed).expect("add item");
    assert_eq!(sys.get_items().len(), 1);
    assert_eq!(sys.remove_item(&unlisted), Err(SysError::CannotDelete));
    assert_eq!(sys.get_items().len(), 1);
}

#[test]
fn test_add_member_then_remove_leaves_nothing() {
    let mut sys = System::new();
    let a = member("Ada", "ada@lovelace.org", "0101010101");
    sys.add_member(a.clone()).expect("add member");
    sys.remove_member(&a).expect("remove member");
    assert!(!sys.exists_member(&a));
    assert_eq!(sys.get_members().len(), 0);
}

#[test]
fn test_add_item_requires_stored_owner() {
    let mut sys = System::new();
    let stray = member("Ada", "ada@lovelace.org", "0101010101");
    let tool = Item::new(
        "Hammer".to_owned(),
        "A useful tool".to_owned(),
        Category::Tool,
        stray.clone(),
        15,
        0,
    );
    assert_eq!(sys.add_item(tool), Err(SysError::DoesntExist));
    assert_eq!(sys.get_items().len(), 0);
}

#[test]
fn test_add_item_twice_is_rejected() {
    let mut sys = System::new();
    let a = member("Ada", "ada@lovelace.org", "0101010101");
    sys.add_member(a.clone()).expect("add member");
    let tool = Item::new(
        "Hammer".to_owned(),
        "A useful tool".to_owned(),
        Category::Tool,
        a.clone(),
        15,
        0,
    );
    assert_eq!(sys.add_item(tool.clone()), Ok(()));
    assert_eq!(sys.add_item(tool), Err(SysError::AlreadyExists));
    assert_eq!(sys.get_items().len(), 1);
    // the reward was paid exactly once
    assert_eq!(sys.get_member(&a).unwrap().get_credits(), 100);
}

#[test]
fn test_update_member_errors() {
    let mut sys = System::new();
    let a = member("Ada", "ada@lovelace.org", "0101010101");
    let b = member("Grace", "grace@hopper.org", "0202020202");
    let stranger = member("Nobody", "nobody@nowhere.org", "0909090909");
    sys.add_member(a.clone()).expect("add member");
    sys.add_member(b.clone()).expect("add member");
    // the key must exist
    let renamed = stranger.clone().name("Somebody".to_owned());
    assert_eq!(
        sys.update_member(&stranger, &renamed),
        Err(SysError::DoesntExist)
    );
    // replacing a with a value that carries b's identifier would break the store
    assert_eq!(sys.update_member(&a, &b), Err(SysError::CannotUpdate));
    // replacing a member with an edited copy of itself is fine
    let edited = a.clone().name("Ada L.".to_owned());
    assert_eq!(sys.update_member(&a, &edited), Ok(()));
    assert_eq!(sys.get_member(&a).unwrap().get_name(), "Ada L.".to_owned());
}

#[test]
fn test_update_item_replaces_stored_value() {
    let mut sys = System::new();
    let a = member("Ada", "ada@lovelace.org", "0101010101");
    sys.add_member(a.clone()).expect("add member");
    let tool = Item::new(
        "Hammer".to_owned(),
        "A useful tool".to_owned(),
        Category::Tool,
        a.clone(),
        15,
        0,
    );
    sys.add_item(tool.clone()).expect("add item");
    let edited = tool.clone().name("Sledgehammer".to_owned());
    assert_eq!(sys.update_item(&edited), Ok(()));
    assert_eq!(
        sys.get_item(&tool).unwrap().get_name(),
        "Sledgehammer".to_owned()
    );
    let unlisted = Item::new(
        "Saw".to_owned(),
        "Another tool".to_owned(),
        Category::Tool,
        a.clone(),
        10,
        0,
    );
    assert_eq!(sys.update_item(&unlisted), Err(SysError::CannotUpdate));
}

#[test]
fn test_overlapping_contract_rejected() {
    let a = member("Ada", "ada@lovelace.org", "0101010101");
    let b = member("Grace", "grace@hopper.org", "0202020202");
    let mut game = Item::new(
        "Monopoly".to_owned(),
        "A Family Game".to_owned(),
        Category::Game,
        a.clone(),
        20,
        0,
    );
    let first = Contract::new(&a, &b, 0, 6, 120);
    let overlapping = Contract::new(&a, &b, 5, 3, 60);
    let later = Contract::new(&a, &b, 6, 3, 60);
    assert_eq!(game.add_contract(first), Ok(()));
    assert_eq!(game.add_contract(overlapping), Err(AlreadyUnderContract));
    assert_eq!(game.add_contract(later), Ok(()));
    assert_eq!(game.get_history().len(), 2);
}

#[test]
fn test_active_contract_window() {
    let a = member("Ada", "ada@lovelace.org", "0101010101");
    let b = member("Grace", "grace@hopper.org", "0202020202");
    let mut game = Item::new(
        "Monopoly".to_owned(),
        "A Family Game".to_owned(),
        Category::Game,
        a.clone(),
        20,
        0,
    );
    let c = Contract::new(&a, &b, 2, 3, 60);
    assert!(c.is_active_on(2));
    assert!(c.is_active_on(4));
    assert!(!c.is_active_on(1));
    assert!(!c.is_active_on(5));
    game.add_contract(c).expect("add contract");
    assert!(game.get_active_contract(1).is_none());
    let found = game.get_active_contract(3).expect("active on day 3");
    assert_eq!(found.get_start_day(), 2);
    assert_eq!(found.get_end_day(), 5);
    assert!(game.get_active_contract(5).is_none());
}

#[test]
fn test_settlement_missing_lendee_reports_cannot_update() {
    let mut sys = System::new();
    let a = member("Ada", "ada@lovelace.org", "0101010101");
    let b = member("Grace", "grace@hopper.org", "0202020202");
    sys.add_member(a.clone()).expect("add member");
    // b never joins the system
    let mut game = Item::new(
        "Monopoly".to_owned(),
        "A Family Game".to_owned(),
        Category::Game,
        a.clone(),
        20,
        0,
    );
    let c = Contract::new(&a, &b, 1, 5, 100);
    game.add_contract(c).expect("add contract");
    sys.add_item(game).expect("add item");
    assert_eq!(sys.incr_time(), Err(SysError::CannotUpdate));
    // the owner was still credited: the owner step is independent
    assert_eq!(sys.get_member(&a).unwrap().get_credits(), 120);
}

#[test]
fn test_settlement_missing_owner_is_soft() {
    let mut sys = System::new();
    let a = member("Ada", "ada@lovelace.org", "0101010101");
    let b = member("Grace", "grace@hopper.org", "0202020202");
    sys.add_member(b.clone()).expect("add member");
    // a, the owner, never joins the system; listing the item then fails,
    // so the item is placed while a is still a member and a leaves after
    sys.add_member(a.clone()).expect("add member");
    let mut game = Item::new(
        "Monopoly".to_owned(),
        "A Family Game".to_owned(),
        Category::Game,
        a.clone(),
        20,
        0,
    );
    let c = Contract::new(&a, &b, 1, 5, 100);
    game.add_contract(c).expect("add contract");
    sys.add_item(game).expect("add item");
    sys.remove_member(&a).expect("remove owner");
    // settling still succeeds: a missing owner is skipped, the lendee pays
    assert_eq!(sys.incr_time(), Ok(()));
    assert_eq!(sys.get_member(&b).unwrap().get_credits(), -20);
}

#[test]
fn test_contract_lookup() {
    let mut sys = System::new();
    let a = member("Ada", "ada@lovelace.org", "0101010101");
    let b = member("Grace", "grace@hopper.org", "0202020202");
    sys.add_member(a.clone()).expect("add member");
    sys.add_member(b.clone()).expect("add member");
    let mut game = Item::new(
        "Monopoly".to_owned(),
        "A Family Game".to_owned(),
        Category::Game,
        a.clone(),
        20,
        0,
    );
    let c = Contract::new(&a, &b, 0, 6, 120);
    let unknown = Contract::new(&a, &b, 10, 2, 40);
    game.add_contract(c).expect("add contract");
    let game_id = game.get_uuid();
    sys.add_item(game).expect("add item");
    let found = sys.get_contract(&c).expect("stored contract");
    assert_eq!(found.get_uuid(), c.get_uuid());
    assert_eq!(found.get_total_price(), 120);
    assert_eq!(sys.get_contract(&unknown), Err(SysError::DoesntExist));
    let carrier = sys.get_item_for_contract(&c).expect("carrying item");
    assert_eq!(carrier.get_uuid(), game_id);
    assert!(sys.get_item_for_contract(&unknown).is_none());
}

#[test]
fn test_items_per_member() {
    let mut sys = System::new();
    let a = member("Ada", "ada@lovelace.org", "0101010101");
    let b = member("Grace", "grace@hopper.org", "0202020202");
    sys.add_member(a.clone()).expect("add member");
    sys.add_member(b.clone()).expect("add member");
    let hammer = Item::new(
        "Hammer".to_owned(),
        "A useful tool".to_owned(),
        Category::Tool,
        a.clone(),
        15,
        0,
    );
    let saw = Item::new(
        "Saw".to_owned(),
        "Another tool".to_owned(),
        Category::Tool,
        a.clone(),
        10,
        0,
    );
    let game = Item::new(
        "Monopoly".to_owned(),
        "A Family Game".to_owned(),
        Category::Game,
        b.clone(),
        20,
        0,
    );
    sys.add_item(hammer).expect("add item");
    sys.add_item(saw).expect("add item");
    sys.add_item(game).expect("add item");
    assert_eq!(sys.count_items_for_member(&a), 2);
    assert_eq!(sys.count_items_for_member(&b), 1);
    let of_a = sys.get_items_for_member(&a);
    assert_eq!(of_a.len(), 2);
    assert_eq!(of_a[0].get_name(), "Hammer".to_owned());
    assert_eq!(of_a[1].get_name(), "Saw".to_owned());
}
