//! The settlement engine's rules, one at a time.

use prompt_hash::{
    Address, Error, Event, Prompt, PromptHashContract, PromptHashTrait, Settlement,
};

fn market() -> PromptHashContract {
    PromptHashContract::__constructor(
        Address::new("admin"),
        Address::new("fee wallet"),
        Address::new("xlm"),
    )
    .unwrap()
}

fn create(market: &mut PromptHashContract, creator: &str, price: u128) -> u128 {
    market
        .create_prompt(
            Address::new(creator),
            "https://example.com/image.png".to_string(),
            "a description".to_string(),
            "a title".to_string(),
            "a category".to_string(),
            price,
        )
        .unwrap()
}

fn record(id: u128, owner: &str, price: u128, for_sale: bool, sold: bool) -> Prompt {
    Prompt {
        id,
        image_url: "https://example.com/image.png".to_string(),
        description: "a description".to_string(),
        price,
        for_sale,
        sold,
        owner: Address::new(owner),
        category: "a category".to_string(),
        title: "a title".to_string(),
    }
}

#[test]
fn a_new_marketplace_is_empty_and_charges_five_percent() {
    let market = market();
    assert_eq!(market.get_all_prompts(), Ok(vec![]));
    assert_eq!(market.get_next_token(), Ok(0));
    assert_eq!(market.get_fee_percentage(), 500);
    assert_eq!(market.get_fee_wallet(), Some(Address::new("fee wallet")));
    assert_eq!(market.get_xlm_address(), Some(Address::new("xlm")));
    assert_eq!(market.get_admin(), Some(Address::new("admin")));
    assert_eq!(market.get_prompt(0), None);
}

#[test]
fn a_created_record_holds_what_it_was_given() {
    let mut market = market();
    let id = market
        .create_prompt(
            Address::new("creator"),
            "ipfs://image".to_string(),
            "words".to_string(),
            "My First Prompt".to_string(),
            "AI Art".to_string(),
            1000,
        )
        .unwrap();
    assert_eq!(id, 0);
    assert_eq!(
        market.get_prompt(0),
        Some(Prompt {
            id: 0,
            image_url: "ipfs://image".to_string(),
            description: "words".to_string(),
            price: 1000,
            for_sale: false,
            sold: false,
            owner: Address::new("creator"),
            category: "AI Art".to_string(),
            title: "My First Prompt".to_string(),
        })
    );
}

#[test]
fn ids_count_up_from_zero_whatever_happens_in_between() {
    let mut market = market();
    assert_eq!(create(&mut market, "ann", 10), 0);
    assert_eq!(market.list_prompt_for_sale(Address::new("ann"), 0, 20), Ok(()));
    assert_eq!(create(&mut market, "bob", 10), 1);
    assert_eq!(market.list_prompt_for_sale(Address::new("bob"), 7, 20), Err(Error::NotFound));
    assert_eq!(market.buy_prompt(Address::new("bob"), 0, Ok(())), Ok(()));
    assert_eq!(create(&mut market, "ann", 10), 2);
    assert_eq!(market.set_fee_percentage(&Address::new("admin"), 1), Ok(()));
    assert_eq!(create(&mut market, "cyd", 10), 3);
    assert_eq!(market.get_next_token(), Ok(4));
    let ids: Vec<u128> = market.get_all_prompts().unwrap().iter().map(|p| p.id).collect();
    assert_eq!(ids, vec![0, 1, 2, 3]);
}

#[test]
fn a_listing_sets_the_price_and_nothing_else() {
    let mut market = market();
    create(&mut market, "ann", 1000);
    create(&mut market, "bob", 2000);
    assert_eq!(market.list_prompt_for_sale(Address::new("ann"), 0, 5000), Ok(()));
    assert_eq!(market.get_prompt(0), Some(record(0, "ann", 5000, true, false)));
    assert_eq!(market.get_prompt(1), Some(record(1, "bob", 2000, false, false)));
    assert_eq!(market.get_next_token(), Ok(2));
}

#[test]
fn listing_again_replaces_the_price_and_adds_no_record() {
    let mut market = market();
    create(&mut market, "ann", 1000);
    assert_eq!(market.list_prompt_for_sale(Address::new("ann"), 0, 5000), Ok(()));
    assert_eq!(market.list_prompt_for_sale(Address::new("ann"), 0, 7500), Ok(()));
    assert_eq!(market.list_prompt_for_sale(Address::new("ann"), 0, 0), Ok(()));
    assert_eq!(market.get_all_prompts(), Ok(vec![record(0, "ann", 0, true, false)]));
    assert_eq!(market.get_next_token(), Ok(1));
}

#[test]
fn listing_is_refused_for_an_unknown_id() {
    let mut market = market();
    assert_eq!(market.list_prompt_for_sale(Address::new("ann"), 0, 1), Err(Error::NotFound));
    create(&mut market, "ann", 1000);
    assert_eq!(market.list_prompt_for_sale(Address::new("ann"), 1, 1), Err(Error::NotFound));
    assert_eq!(market.list_prompt_for_sale(Address::new("ann"), 999, 1), Err(Error::NotFound));
    assert_eq!(
        market.list_prompt_for_sale(Address::new("ann"), u128::MAX, 1),
        Err(Error::NotFound)
    );
}

#[test]
fn listing_is_refused_for_anyone_but_the_owner() {
    let mut market = market();
    create(&mut market, "ann", 1000);
    assert_eq!(market.list_prompt_for_sale(Address::new("bob"), 0, 1), Err(Error::UnAuthorized));
    assert_eq!(market.list_prompt_for_sale(Address::new("admin"), 0, 1), Err(Error::UnAuthorized));
    assert_eq!(market.list_prompt_for_sale(Address::new("an"), 0, 1), Err(Error::UnAuthorized));
    assert_eq!(market.get_prompt(0), Some(record(0, "ann", 1000, false, false)));
}

#[test]
fn a_purchase_moves_the_record_to_the_buyer_and_closes_it() {
    let mut market = market();
    create(&mut market, "seller", 10000);
    assert_eq!(market.list_prompt_for_sale(Address::new("seller"), 0, 10000), Ok(()));
    assert_eq!(market.set_fee_percentage(&Address::new("admin"), 500), Ok(()));
    assert_eq!(
        market.purchase_terms(&Address::new("buyer"), 0),
        Ok(Settlement {
            token_id: 0,
            seller: Address::new("seller"),
            buyer: Address::new("buyer"),
            fee_wallet: Address::new("fee wallet"),
            price: 10000,
            fee_amount: 500,
            seller_amount: 9500,
        })
    );
    assert_eq!(market.buy_prompt(Address::new("buyer"), 0, Ok(())), Ok(()));
    assert_eq!(market.get_prompt(0), Some(record(0, "buyer", 10000, false, true)));
}

#[test]
fn the_terms_follow_the_fee_settings_of_the_moment() {
    let mut market = market();
    create(&mut market, "seller", 1);
    assert_eq!(market.list_prompt_for_sale(Address::new("seller"), 0, 12345), Ok(()));
    assert_eq!(market.set_fee_percentage(&Address::new("admin"), 250), Ok(()));
    assert_eq!(market.set_fee_wallet(&Address::new("admin"), Address::new("treasury")), Ok(()));
    let terms = market.purchase_terms(&Address::new("buyer"), 0).unwrap();
    assert_eq!(terms.price, 12345);
    assert_eq!(terms.fee_amount, 308);
    assert_eq!(terms.seller_amount, 12037);
    assert_eq!(terms.fee_amount + terms.seller_amount, 12345);
    assert_eq!(terms.fee_wallet, Address::new("treasury"));
    assert_eq!(terms.seller, Address::new("seller"));
    assert_eq!(market.set_fee_percentage(&Address::new("admin"), 0), Ok(()));
    let terms = market.purchase_terms(&Address::new("buyer"), 0).unwrap();
    assert_eq!((terms.fee_amount, terms.seller_amount), (0, 12345));
}

#[test]
fn a_purchase_is_refused_for_an_unknown_id() {
    let mut market = market();
    assert_eq!(market.buy_prompt(Address::new("bob"), 999, Ok(())), Err(Error::NotFound));
    assert_eq!(market.purchase_terms(&Address::new("bob"), 0), Err(Error::NotFound));
    create(&mut market, "ann", 1000);
    assert_eq!(market.buy_prompt(Address::new("bob"), 1, Ok(())), Err(Error::NotFound));
    assert_eq!(
        market.buy_prompt(Address::new("bob"), 1, Err(Error::InsufficientFunds)),
        Err(Error::NotFound)
    );
}

#[test]
fn a_purchase_is_refused_until_the_record_is_listed() {
    let mut market = market();
    create(&mut market, "ann", 1000);
    assert_eq!(market.buy_prompt(Address::new("bob"), 0, Ok(())), Err(Error::NotForSale));
    assert_eq!(market.buy_prompt(Address::new("ann"), 0, Ok(())), Err(Error::NotForSale));
    assert_eq!(market.get_prompt(0), Some(record(0, "ann", 1000, false, false)));
    assert_eq!(market.list_prompt_for_sale(Address::new("ann"), 0, 1000), Ok(()));
    assert_eq!(market.buy_prompt(Address::new("bob"), 0, Ok(())), Ok(()));
}

#[test]
fn a_sold_record_is_neither_listed_nor_bought_again() {
    let mut market = market();
    create(&mut market, "ann", 1000);
    assert_eq!(market.list_prompt_for_sale(Address::new("ann"), 0, 1000), Ok(()));
    assert_eq!(market.buy_prompt(Address::new("bob"), 0, Ok(())), Ok(()));
    let sold = record(0, "bob", 1000, false, true);
    for _ in 0..3 {
        assert_eq!(market.buy_prompt(Address::new("cyd"), 0, Ok(())), Err(Error::NotForSale));
        assert_eq!(market.buy_prompt(Address::new("ann"), 0, Ok(())), Err(Error::NotForSale));
        assert_eq!(
            market.list_prompt_for_sale(Address::new("bob"), 0, 5),
            Err(Error::AlreadySold)
        );
        assert_eq!(
            market.list_prompt_for_sale(Address::new("ann"), 0, 5),
            Err(Error::UnAuthorized)
        );
        assert_eq!(market.get_prompt(0), Some(sold.clone()));
    }
}

#[test]
fn the_owner_cannot_buy_whatever_the_price_and_the_fee() {
    let mut market = market();
    create(&mut market, "ann", 1000);
    for price in [0, 1, 10000, u128::MAX] {
        for fee_percentage in [0, 500, 10000, 10001, u128::MAX] {
            assert_eq!(market.list_prompt_for_sale(Address::new("ann"), 0, price), Ok(()));
            assert_eq!(market.set_fee_percentage(&Address::new("admin"), fee_percentage), Ok(()));
            assert_eq!(market.buy_prompt(Address::new("ann"), 0, Ok(())), Err(Error::SelfPurchase));
            assert_eq!(
                market.buy_prompt(Address::new("ann"), 0, Err(Error::InsufficientApproval)),
                Err(Error::SelfPurchase)
            );
            assert_eq!(
                market.purchase_terms(&Address::new("ann"), 0),
                Err(Error::SelfPurchase)
            );
        }
    }
    assert_eq!(market.get_prompt(0), Some(record(0, "ann", u128::MAX, true, false)));
}

#[test]
fn a_fee_above_the_price_is_not_funded() {
    let mut market = market();
    create(&mut market, "ann", 1000);
    assert_eq!(market.list_prompt_for_sale(Address::new("ann"), 0, 10000), Ok(()));
    assert_eq!(market.set_fee_percentage(&Address::new("admin"), 10001), Ok(()));
    assert_eq!(market.purchase_terms(&Address::new("bob"), 0), Err(Error::InsufficientFunds));
    assert_eq!(market.buy_prompt(Address::new("bob"), 0, Ok(())), Err(Error::InsufficientFunds));
    assert_eq!(market.get_prompt(0), Some(record(0, "ann", 10000, true, false)));
    assert_eq!(market.list_prompt_for_sale(Address::new("ann"), 0, 1000), Ok(()));
    let terms = market.purchase_terms(&Address::new("bob"), 0).unwrap();
    assert_eq!((terms.fee_amount, terms.seller_amount), (1000, 0));
    assert_eq!(market.set_fee_percentage(&Address::new("admin"), 10000), Ok(()));
    let terms = market.purchase_terms(&Address::new("bob"), 0).unwrap();
    assert_eq!((terms.fee_amount, terms.seller_amount), (1000, 0));
}

#[test]
fn what_the_ledgers_refuse_is_passed_on_and_changes_nothing() {
    let mut market = market();
    create(&mut market, "ann", 1000);
    assert_eq!(market.list_prompt_for_sale(Address::new("ann"), 0, 1000), Ok(()));
    market.take_events();
    for refusal in [
        Error::InsufficientFunds,
        Error::InsufficientApproval,
        Error::NotFound,
        Error::UnAuthorized,
    ] {
        assert_eq!(market.buy_prompt(Address::new("bob"), 0, Err(refusal)), Err(refusal));
        assert_eq!(market.get_prompt(0), Some(record(0, "ann", 1000, true, false)));
        assert_eq!(market.take_events(), vec![]);
    }
    assert_eq!(market.buy_prompt(Address::new("bob"), 0, Ok(())), Ok(()));
}

#[test]
fn only_the_administrator_sets_the_fee() {
    let mut market = market();
    assert_eq!(market.authorize(&Address::new("admin")), Ok(()));
    assert_eq!(market.authorize(&Address::new("fee wallet")), Err(Error::UnAuthorized));
    assert_eq!(
        market.set_fee_percentage(&Address::new("ann"), 1000),
        Err(Error::UnAuthorized)
    );
    assert_eq!(
        market.set_fee_wallet(&Address::new("ann"), Address::new("ann")),
        Err(Error::UnAuthorized)
    );
    assert_eq!(market.get_fee_percentage(), 500);
    assert_eq!(market.get_fee_wallet(), Some(Address::new("fee wallet")));
    assert_eq!(market.take_events(), vec![]);
    assert_eq!(market.set_fee_percentage(&Address::new("admin"), 1000), Ok(()));
    assert_eq!(market.set_fee_wallet(&Address::new("admin"), Address::new("ann")), Ok(()));
    assert_eq!(market.get_fee_percentage(), 1000);
    assert_eq!(market.get_fee_wallet(), Some(Address::new("ann")));
}

#[test]
fn each_success_leaves_one_notification() {
    let mut market = market();
    create(&mut market, "ann", 1000);
    assert_eq!(market.list_prompt_for_sale(Address::new("bob"), 0, 1), Err(Error::UnAuthorized));
    assert_eq!(market.list_prompt_for_sale(Address::new("ann"), 0, 3000), Ok(()));
    assert_eq!(market.buy_prompt(Address::new("ann"), 0, Ok(())), Err(Error::SelfPurchase));
    assert_eq!(market.buy_prompt(Address::new("bob"), 0, Ok(())), Ok(()));
    assert_eq!(market.set_fee_percentage(&Address::new("admin"), 250), Ok(()));
    assert_eq!(market.set_fee_wallet(&Address::new("admin"), Address::new("treasury")), Ok(()));
    assert_eq!(
        market.take_events(),
        vec![
            Event::PromptCreated {
                token_id: 0,
                creator: Address::new("ann"),
                image_url: "https://example.com/image.png".to_string(),
                description: "a description".to_string(),
            },
            Event::PromptListed { token_id: 0, seller: Address::new("ann"), price: 3000 },
            Event::PromptSold {
                token_id: 0,
                seller: Address::new("ann"),
                buyer: Address::new("bob"),
                price: 3000,
            },
            Event::FeeUpdated { new_fee_percentage: 250 },
            Event::FeeWalletUpdated { new_fee_wallet: Address::new("treasury") },
        ]
    );
    assert_eq!(market.take_events(), vec![]);
}

#[test]
fn a_marketplace_is_restored_from_what_it_lists() {
    let mut market = market();
    create(&mut market, "ann", 1000);
    create(&mut market, "bob", 2000);
    create(&mut market, "cyd", 3000);
    assert_eq!(market.list_prompt_for_sale(Address::new("ann"), 0, 1500), Ok(()));
    assert_eq!(market.list_prompt_for_sale(Address::new("bob"), 1, 2500), Ok(()));
    assert_eq!(market.buy_prompt(Address::new("ann"), 1, Ok(())), Ok(()));
    assert_eq!(market.set_fee_percentage(&Address::new("admin"), 250), Ok(()));

    let mut restored = PromptHashContract::restore(
        market.get_admin(),
        market.get_fee_wallet().unwrap(),
        market.get_xlm_address().unwrap(),
        market.get_fee_percentage(),
        market.get_all_prompts().unwrap(),
    )
    .unwrap();
    assert_eq!(restored.get_all_prompts(), market.get_all_prompts());
    assert_eq!(restored.get_next_token(), Ok(3));
    assert_eq!(restored.get_fee_percentage(), 250);
    assert_eq!(restored.get_admin(), Some(Address::new("admin")));
    assert_eq!(restored.get_prompt(1), Some(record(1, "ann", 2500, false, true)));
    assert_eq!(restored.take_events(), vec![]);
    assert_eq!(create(&mut restored, "dan", 1), 3);
    assert_eq!(restored.buy_prompt(Address::new("cyd"), 0, Ok(())), Ok(()));
}

#[test]
fn nothing_is_restored_from_records_out_of_place_or_out_of_order() {
    let restore = |prompts: Vec<Prompt>| {
        PromptHashContract::restore(
            None,
            Address::new("fee wallet"),
            Address::new("xlm"),
            500,
            prompts,
        )
    };
    assert!(restore(vec![]).is_some());
    assert!(restore(vec![record(0, "ann", 1, true, false)]).is_some());
    assert!(restore(vec![record(0, "ann", 1, false, true)]).is_some());
    assert!(restore(vec![record(0, "ann", 1, true, true)]).is_none());
    assert!(restore(vec![record(1, "ann", 1, false, false)]).is_none());
    assert!(
        restore(vec![record(0, "ann", 1, false, false), record(2, "ann", 1, false, false)])
            .is_none()
    );
    assert!(
        restore(vec![record(1, "ann", 1, false, false), record(0, "ann", 1, false, false)])
            .is_none()
    );
}

#[test]
fn a_marketplace_without_administrator_lets_nobody_set_the_fee() {
    let mut market = PromptHashContract::restore(
        None,
        Address::new("fee wallet"),
        Address::new("xlm"),
        500,
        vec![],
    )
    .unwrap();
    assert_eq!(market.authorize(&Address::new("admin")), Err(Error::UnAuthorized));
    assert_eq!(market.set_fee_percentage(&Address::new("admin"), 1), Err(Error::UnAuthorized));
    assert_eq!(market.get_fee_percentage(), 500);
}
