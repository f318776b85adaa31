use our_economy::entity::Entity;
use our_economy::exchange::{Exchange, MatchError, Offer};
use our_economy::materials::{Material, OwnsMaterials};
use our_economy::offer_type::OfferType;
use our_economy::production_companies::TierOneProdInstance;

fn fresh_facility(name: &str, creates: Material) -> Entity {
    Entity::Tier1(TierOneProdInstance {
        id: None,
        name: name.to_string(),
        owner: 0,
        usd: 0,
        base_type: "Grain Company".to_string(),
        creates,
        human_prod_rate: 100,
        robot_prod_rate: 200,
        max_human_workers: 10,
        max_robot_workers: 1,
        human_workers: Vec::new(),
        robot_workers: Vec::new(),
        owns: OwnsMaterials::new(),
    })
}

fn entity_usd(e: &Entity) -> u64 {
    e.usd()
}

fn entity_amount(e: &Entity, m: Material) -> u32 {
    e.materials().amount_of(m)
}

/// Seller lists 100 Grain at 10; buyer submits Buy 50 Grain at 15.
/// The trade executes 50 units at the maker price 10: the seller's row
/// drops to 50, the buyer gains 50 Grain and pays 500, the seller's stored
/// record earns 500, and the buyer leaves no resting remainder.
#[test]
fn scenario_partial_maker_fill() {
    let mut ex = Exchange::new();
    let mut seller = fresh_facility("Seller", Material::Grain);
    let seller_id = seller.save(&mut ex.companies);

    let list = Offer {
        item: Material::Grain,
        quantity: 100,
        price: 10,
        offer_type: OfferType::Sell,
    };
    let listed = list.execute(&mut ex, &mut seller).unwrap();
    assert!(listed.accepted);
    assert_eq!(listed.remaining, 100);
    assert!(listed.rested_id.is_some());
    assert_eq!(ex.book.rows.len(), 1);

    let mut buyer = fresh_facility("Buyer", Material::Grain);
    buyer.earn(10_000);
    let buyer_id = buyer.save(&mut ex.companies);
    assert_ne!(seller_id, buyer_id);

    let buy = Offer {
        item: Material::Grain,
        quantity: 50,
        price: 15,
        offer_type: OfferType::Buy,
    };
    let report = buy.execute(&mut ex, &mut buyer).unwrap();
    assert!(report.accepted);
    assert_eq!(report.legs.len(), 1);
    let leg = report.legs[0];
    assert_eq!(leg.price, 10, "settlement must use the maker price");
    assert_eq!(leg.quantity, 50);
    assert!(!leg.maker_filled);
    assert_eq!(leg.maker_entity_id, seller_id);
    assert_eq!(report.remaining, 0);
    assert_eq!(report.rested_id, None);

    // the seller's resting row keeps the other 50 units
    assert_eq!(ex.book.rows.len(), 1);
    assert_eq!(ex.book.rows[0].quantity, 50);
    assert_eq!(ex.book.rows[0].price, 10);

    // buyer pays 50 * 10 = 500 and gains the material
    assert_eq!(entity_usd(&buyer), 10_000 - 500);
    assert_eq!(entity_amount(&buyer, Material::Grain), 50);

    // the seller's stored record was credited 500
    let stored_seller = ex.companies.load_entity(seller_id).unwrap();
    assert_eq!(entity_usd(&stored_seller), 500);
}

/// No resting sells exist for Water; Buy 200 Water at 5 rests verbatim.
#[test]
fn scenario_unmatched_rests_verbatim() {
    let mut ex = Exchange::new();
    let mut buyer = fresh_facility("Buyer", Material::Water);
    buyer.earn(100_000);
    let buyer_id = buyer.save(&mut ex.companies);

    let buy = Offer {
        item: Material::Water,
        quantity: 200,
        price: 5,
        offer_type: OfferType::Buy,
    };
    let report = buy.execute(&mut ex, &mut buyer).unwrap();
    assert!(report.accepted);
    assert!(report.legs.is_empty());
    assert_eq!(report.remaining, 200);
    let rested = report.rested_id.unwrap();

    assert_eq!(ex.book.rows.len(), 1);
    let row = ex.book.rows[0];
    assert_eq!(row.id, rested);
    assert_eq!(row.item, Material::Water);
    assert_eq!(row.offer_type, OfferType::Buy);
    assert_eq!(row.quantity, 200);
    assert_eq!(row.price, 5);
    assert_eq!(row.entity_id, buyer_id);
    assert_eq!(entity_usd(&buyer), 100_000);
}

/// A buyer whose balance 100 cannot cover 50 * 15 = 750 is rejected
/// cleanly: nothing is written and no balance changes.
#[test]
fn scenario_invalid_buy_is_noop() {
    let mut ex = Exchange::new();
    let mut buyer = fresh_facility("Buyer", Material::Grain);
    buyer.earn(100);
    buyer.save(&mut ex.companies);

    let buy = Offer {
        item: Material::Grain,
        quantity: 50,
        price: 15,
        offer_type: OfferType::Buy,
    };
    assert!(!buy.valid(&buyer));
    let report = buy.execute(&mut ex, &mut buyer).unwrap();
    assert!(!report.accepted);
    assert!(report.legs.is_empty());
    assert_eq!(report.remaining, 50);
    assert_eq!(report.rested_id, None);
    assert_eq!(ex.book.rows.len(), 0);
    assert_eq!(entity_usd(&buyer), 100);
}

/// A buyer whose balance exactly covers the order is valid.
#[test]
fn valid_is_exact_at_the_boundary() {
    let buyer = {
        let mut b = fresh_facility("Buyer", Material::Grain);
        b.earn(750);
        b
    };
    let buy = Offer {
        item: Material::Grain,
        quantity: 50,
        price: 15,
        offer_type: OfferType::Buy,
    };
    assert!(buy.valid(&buyer));
    let dearer = Offer {
        item: Material::Grain,
        quantity: 50,
        price: 16,
        offer_type: OfferType::Buy,
    };
    assert!(!dearer.valid(&buyer));
    let sell = Offer {
        item: Material::Grain,
        quantity: 1_000_000,
        price: 1_000,
        offer_type: OfferType::Sell,
    };
    assert!(sell.valid(&buyer), "sell offers are always valid");
}

/// Seller lists 30 Electricity at 20; Buy 50 at 25 trades 30 at 20,
/// deletes the maker row, and rests the remaining 20 at 25.
#[test]
fn scenario_remainder_rests_after_full_maker_fill() {
    let mut ex = Exchange::new();
    let mut seller = fresh_facility("Seller", Material::Electricity);
    seller.save(&mut ex.companies);
    let list = Offer {
        item: Material::Electricity,
        quantity: 30,
        price: 20,
        offer_type: OfferType::Sell,
    };
    list.execute(&mut ex, &mut seller).unwrap();

    let mut buyer = fresh_facility("Buyer", Material::Electricity);
    buyer.earn(5_000);
    let buyer_id = buyer.save(&mut ex.companies);
    let buy = Offer {
        item: Material::Electricity,
        quantity: 50,
        price: 25,
        offer_type: OfferType::Buy,
    };
    let report = buy.execute(&mut ex, &mut buyer).unwrap();
    assert_eq!(report.legs.len(), 1);
    assert_eq!(report.legs[0].quantity, 30);
    assert_eq!(report.legs[0].price, 20);
    assert!(report.legs[0].maker_filled);
    assert_eq!(report.remaining, 20);
    let rested = report.rested_id.unwrap();

    // the seller's row is gone; only the buyer's remainder rests
    assert_eq!(ex.book.rows.len(), 1);
    let row = ex.book.rows[0];
    assert_eq!(row.id, rested);
    assert_eq!(row.offer_type, OfferType::Buy);
    assert_eq!(row.quantity, 20);
    assert_eq!(row.price, 25);
    assert_eq!(row.entity_id, buyer_id);

    assert_eq!(entity_usd(&buyer), 5_000 - 30 * 20);
    assert_eq!(entity_amount(&buyer, Material::Electricity), 30);
}

/// A buy is matched against resting sells in non-decreasing price order,
/// and each leg settles at the resting order's own price.
#[test]
fn price_priority_cheapest_sell_first() {
    let mut ex = Exchange::new();
    let mut dear = fresh_facility("Dear", Material::Grain);
    let dear_id = dear.save(&mut ex.companies);
    Offer { item: Material::Grain, quantity: 40, price: 20, offer_type: OfferType::Sell }
        .execute(&mut ex, &mut dear)
        .unwrap();
    let mut cheap = fresh_facility("Cheap", Material::Grain);
    let cheap_id = cheap.save(&mut ex.companies);
    Offer { item: Material::Grain, quantity: 40, price: 10, offer_type: OfferType::Sell }
        .execute(&mut ex, &mut cheap)
        .unwrap();

    let mut buyer = fresh_facility("Buyer", Material::Grain);
    buyer.earn(100_000);
    buyer.save(&mut ex.companies);
    let report = Offer {
        item: Material::Grain,
        quantity: 60,
        price: 25,
        offer_type: OfferType::Buy,
    }
        .execute(&mut ex, &mut buyer)
        .unwrap();

    assert_eq!(report.legs.len(), 2);
    assert_eq!(report.legs[0].price, 10);
    assert_eq!(report.legs[0].maker_entity_id, cheap_id);
    assert_eq!(report.legs[0].quantity, 40);
    assert_eq!(report.legs[1].price, 20);
    assert_eq!(report.legs[1].maker_entity_id, dear_id);
    assert_eq!(report.legs[1].quantity, 20);
    // total paid: 40 * 10 + 20 * 20 = 800
    assert_eq!(entity_usd(&buyer), 100_000 - 800);
    assert_eq!(entity_amount(&buyer, Material::Grain), 60);
}

/// Rows resting at the same price trade earliest-inserted-first.
#[test]
fn equal_prices_trade_in_insertion_order() {
    let mut ex = Exchange::new();
    let mut first = fresh_facility("First", Material::Food);
    let first_id = first.save(&mut ex.companies);
    Offer { item: Material::Food, quantity: 10, price: 7, offer_type: OfferType::Sell }
        .execute(&mut ex, &mut first)
        .unwrap();
    let mut second = fresh_facility("Second", Material::Food);
    let second_id = second.save(&mut ex.companies);
    Offer { item: Material::Food, quantity: 10, price: 7, offer_type: OfferType::Sell }
        .execute(&mut ex, &mut second)
        .unwrap();

    let mut buyer = fresh_facility("Buyer", Material::Food);
    buyer.earn(1_000);
    buyer.save(&mut ex.companies);
    let report = Offer {
        item: Material::Food,
        quantity: 15,
        price: 7,
        offer_type: OfferType::Buy,
    }
        .execute(&mut ex, &mut buyer)
        .unwrap();
    assert_eq!(report.legs.len(), 2);
    assert_eq!(report.legs[0].maker_entity_id, first_id);
    assert_eq!(report.legs[0].quantity, 10);
    assert_eq!(report.legs[1].maker_entity_id, second_id);
    assert_eq!(report.legs[1].quantity, 5);
}

/// A sell crosses resting buys in non-increasing price order; the resting
/// buyer pays and receives the goods, the seller is credited.
#[test]
fn sell_crosses_highest_bid_first() {
    let mut ex = Exchange::new();
    let mut low = fresh_facility("LowBid", Material::Water);
    low.earn(10_000);
    low.save(&mut ex.companies);
    Offer { item: Material::Water, quantity: 30, price: 4, offer_type: OfferType::Buy }
        .execute(&mut ex, &mut low)
        .unwrap();
    let mut high = fresh_facility("HighBid", Material::Water);
    high.earn(10_000);
    let high_id = high.save(&mut ex.companies);
    Offer { item: Material::Water, quantity: 30, price: 6, offer_type: OfferType::Buy }
        .execute(&mut ex, &mut high)
        .unwrap();

    let mut seller = fresh_facility("Seller", Material::Water);
    seller.save(&mut ex.companies);
    let report = Offer {
        item: Material::Water,
        quantity: 30,
        price: 4,
        offer_type: OfferType::Sell,
    }
        .execute(&mut ex, &mut seller)
        .unwrap();
    assert_eq!(report.legs.len(), 1);
    assert_eq!(report.legs[0].price, 6, "highest bid serves the seller first");
    assert_eq!(report.legs[0].maker_entity_id, high_id);
    assert_eq!(report.remaining, 0);
    assert_eq!(entity_usd(&seller), 180);

    let stored_high = ex.companies.load_entity(high_id).unwrap();
    assert_eq!(entity_usd(&stored_high), 10_000 - 180);
    assert_eq!(entity_amount(&stored_high, Material::Water), 30);
}

/// A resting row owned by an entity the store does not hold aborts the
/// match before anything changes, naming the orphaned row.
#[test]
fn orphaned_row_reports_referential_gap() {
    let mut ex = Exchange::new();
    let row_id = ex.book.insert(Material::Grain, OfferType::Sell, 10, 5, 999, 1);

    let mut buyer = fresh_facility("Buyer", Material::Grain);
    buyer.earn(1_000);
    buyer.save(&mut ex.companies);
    let result = Offer {
        item: Material::Grain,
        quantity: 10,
        price: 5,
        offer_type: OfferType::Buy,
    }
        .execute(&mut ex, &mut buyer);
    match result {
        Err(MatchError::ReferentialGap { row_id: rid, entity_id }) => {
            assert_eq!(rid, row_id);
            assert_eq!(entity_id, 999);
        },
        Ok(_) => panic!("an orphaned crossing row must abort the match"),
    }
    // nothing changed
    assert_eq!(ex.book.rows.len(), 1);
    assert_eq!(ex.book.rows[0].quantity, 10);
    assert_eq!(entity_usd(&buyer), 1_000);
    assert_eq!(entity_amount(&buyer, Material::Grain), 0);
}

/// Currency and material are conserved across a whole match: what the
/// buyer pays is exactly what the sellers receive, and what the sellers'
/// rows lose is exactly what the buyer gains.
#[test]
fn conservation_across_legs() {
    let mut ex = Exchange::new();
    let mut s1 = fresh_facility("S1", Material::Grain);
    let s1_id = s1.save(&mut ex.companies);
    Offer { item: Material::Grain, quantity: 25, price: 9, offer_type: OfferType::Sell }
        .execute(&mut ex, &mut s1)
        .unwrap();
    let mut s2 = fresh_facility("S2", Material::Grain);
    let s2_id = s2.save(&mut ex.companies);
    Offer { item: Material::Grain, quantity: 25, price: 11, offer_type: OfferType::Sell }
        .execute(&mut ex, &mut s2)
        .unwrap();

    let mut buyer = fresh_facility("Buyer", Material::Grain);
    buyer.earn(2_000);
    buyer.save(&mut ex.companies);
    let report = Offer {
        item: Material::Grain,
        quantity: 40,
        price: 11,
        offer_type: OfferType::Buy,
    }
        .execute(&mut ex, &mut buyer)
        .unwrap();

    let paid = 2_000 - entity_usd(&buyer);
    let earned = entity_usd(&ex.companies.load_entity(s1_id).unwrap())
        + entity_usd(&ex.companies.load_entity(s2_id).unwrap());
    assert_eq!(paid, earned);
    assert_eq!(paid, 25 * 9 + 15 * 11);

    let gained: u32 = entity_amount(&buyer, Material::Grain);
    let legs_total: u32 = report.legs.iter().map(|l| l.quantity).sum();
    assert_eq!(gained, 40);
    assert_eq!(legs_total, 40);
}
