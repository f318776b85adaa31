use our_economy::company_data::{tier_one_prod_list, tier_two_prod_list};
use our_economy::entity::Entity;
use our_economy::exchange::{Exchange, Offer};
use our_economy::manufacturing::TierTwoProdInstance;
use our_economy::materials::{Material, OwnsMaterials};
use our_economy::offer_type::OfferType;
use our_economy::player::Player;
use our_economy::production_companies::{TierOneProdBase, TierOneProdInstance};
use our_economy::recipies::ConsumableRecipe;
use our_economy::store::CompanyStore;
use our_economy::strategies::{BuyOutcome, SellOutcome};
use our_economy::workers::{HireError, WorkError};

#[test]
fn founding_a_facility_charges_the_owner_and_grants_shares() {
    let mut store = CompanyStore::new();
    let mut owner = Player::blank();
    owner.earn(500_000);
    let base = TierOneProdBase::new("Grain Company".to_string(), 100, Material::Grain);
    let inst = TierOneProdInstance::new(&mut store, &base, "Farm One".to_string(), &mut owner)
        .unwrap();
    assert_eq!(inst.id, Some(1));
    assert_eq!(inst.usd, 0);
    assert_eq!(inst.creates, Material::Grain);
    assert_eq!(owner.usd, 500_000 - 200);
    assert_eq!(owner.shares, vec![(1, 10_000)]);
    assert!(store.load_entity(1).is_some());
}

#[test]
fn founding_without_funds_changes_nothing() {
    let mut store = CompanyStore::new();
    let mut owner = Player::blank();
    owner.earn(10);
    let base = TierOneProdBase::new("Grain Company".to_string(), 100, Material::Grain);
    assert!(TierOneProdInstance::new(&mut store, &base, "Farm".to_string(), &mut owner).is_none());
    assert_eq!(owner.usd, 10);
    assert!(store.load_entity(1).is_none());
}

#[test]
fn tier_one_worker_cycle() {
    let mut store = CompanyStore::new();
    let mut owner = Player::blank();
    owner.earn(1_000);
    let base = TierOneProdBase::new("Water Company".to_string(), 1000, Material::Water);
    let mut inst = TierOneProdInstance::new(&mut store, &base, "Works".to_string(), &mut owner)
        .unwrap();

    assert_eq!(inst.hire_worker(&owner), Ok(()));
    assert_eq!(inst.hire_worker(&owner), Err(HireError::AlreadyHired));

    assert_eq!(inst.human_worked(&mut owner), Ok(()));
    assert_eq!(inst.owns.water, 1000);
    assert_eq!(owner.energy, 46);
    assert_eq!(inst.human_worked(&mut owner), Err(WorkError::AlreadyWorked));

    inst.reset_workers();
    assert_eq!(inst.human_worked(&mut owner), Ok(()));
    assert_eq!(inst.owns.water, 2000);

    let stranger = Player::new("visitor".to_string());
    let mut tired = stranger.clone();
    assert_eq!(inst.human_worked(&mut tired), Err(WorkError::NotHired));
}

#[test]
fn tier_one_roster_is_capped() {
    let mut inst = TierOneProdInstance {
        id: Some(7),
        name: "Tiny".to_string(),
        owner: 0,
        usd: 0,
        base_type: "Grain Company".to_string(),
        creates: Material::Grain,
        human_prod_rate: 1,
        robot_prod_rate: 2,
        max_human_workers: 1,
        max_robot_workers: 1,
        human_workers: Vec::new(),
        robot_workers: Vec::new(),
        owns: OwnsMaterials::new(),
    };
    let a = Player::blank();
    let b = Player::new("second".to_string());
    assert_eq!(inst.hire_worker(&a), Ok(()));
    assert_eq!(inst.hire_worker(&b), Err(HireError::NoSlots));
}

#[test]
fn tier_two_consumes_its_recipe() {
    let mut store = CompanyStore::new();
    let mut owner = Player::blank();
    owner.earn(1_000);
    let bases = tier_two_prod_list();
    let mut inst = TierTwoProdInstance::new(
        &mut store,
        &bases[0],
        "Food Works".to_string(),
        &mut owner,
    )
        .unwrap();
    inst.hire_worker(&owner).unwrap();

    // recipe needs 10 electricity, 5 water, 5 grain
    assert_eq!(
        inst.human_worked(&mut owner),
        Err(WorkError::MissingInput(Material::Electricity))
    );
    inst.owns.add(Material::Electricity, 10);
    assert_eq!(
        inst.human_worked(&mut owner),
        Err(WorkError::MissingInput(Material::Water))
    );
    inst.owns.add(Material::Water, 5);
    inst.owns.add(Material::Grain, 5);
    assert_eq!(inst.human_worked(&mut owner), Ok(()));
    assert_eq!(inst.owns.electricity, 0);
    assert_eq!(inst.owns.water, 0);
    assert_eq!(inst.owns.grain, 0);
    assert_eq!(inst.owns.food, 50);
}

#[test]
fn tier_two_rejects_food_as_an_input() {
    let mut inst = TierTwoProdInstance {
        id: Some(3),
        name: "Odd".to_string(),
        owner: 0,
        usd: 0,
        base_type: "Food Factory".to_string(),
        creates: Material::Food,
        human_prod_rate: 5,
        human_workers: vec![(0, false)],
        owns: OwnsMaterials { grain: 0, electricity: 0, water: 0, food: 9 },
        consumes: ConsumableRecipe { inputs: vec![(Material::Food, 1)] },
    };
    let mut worker = Player::blank();
    assert_eq!(inst.human_worked(&mut worker), Err(WorkError::UnsupportedInput));
}

#[test]
fn worker_without_energy_cannot_work() {
    let mut store = CompanyStore::new();
    let mut owner = Player::blank();
    owner.earn(1_000);
    let base = TierOneProdBase::new("Grain Company".to_string(), 100, Material::Grain);
    let mut inst = TierOneProdInstance::new(&mut store, &base, "Farm".to_string(), &mut owner)
        .unwrap();
    inst.hire_worker(&owner).unwrap();
    owner.energy = 3;
    assert_eq!(inst.human_worked(&mut owner), Err(WorkError::NotEnoughEnergy));
}

#[test]
fn player_money_and_shares() {
    let mut p = Player::new("trader".to_string());
    p.earn(100);
    p.spend(40);
    assert_eq!(p.usd, 60);
    p.spend(1_000);
    assert_eq!(p.usd, 0, "an overdraft empties the balance");

    p.edit_shares(Some(5), 100);
    p.edit_shares(Some(9), 10);
    p.edit_shares(Some(5), -30);
    assert_eq!(p.shares, vec![(5, 70), (9, 10)]);
}

#[test]
fn store_assigns_and_keeps_identifiers() {
    let mut store = CompanyStore::new();
    let mut a = Entity::Tier1(TierOneProdInstance {
        id: None,
        name: "A".to_string(),
        owner: 0,
        usd: 11,
        base_type: "Grain Company".to_string(),
        creates: Material::Grain,
        human_prod_rate: 1,
        robot_prod_rate: 2,
        max_human_workers: 10,
        max_robot_workers: 1,
        human_workers: Vec::new(),
        robot_workers: Vec::new(),
        owns: OwnsMaterials::new(),
    });
    let id_a = a.save(&mut store);
    assert_eq!(id_a, 1);
    assert_eq!(a.id(), 1);
    assert_eq!(a.type_code(), 1);

    a.earn(9);
    let again = a.save(&mut store);
    assert_eq!(again, 1, "an entity keeps its identifier across saves");
    let stored = store.load_entity(1).unwrap();
    assert_eq!(stored.usd(), 20);
    assert!(store.load_entity(2).is_none());
}

#[test]
fn quick_buy_and_sell_move_goods() {
    let mut ex = Exchange::new();
    let mut seller = Entity::Tier1(TierOneProdInstance {
        id: None,
        name: "S".to_string(),
        owner: 0,
        usd: 0,
        base_type: "Grain Company".to_string(),
        creates: Material::Grain,
        human_prod_rate: 1,
        robot_prod_rate: 2,
        max_human_workers: 10,
        max_robot_workers: 1,
        human_workers: Vec::new(),
        robot_workers: Vec::new(),
        owns: OwnsMaterials { grain: 80, electricity: 0, water: 0, food: 0 },
    });
    seller.save(&mut ex.companies);
    let listed = seller.quick_sell(&mut ex, Material::Grain, 12, 80).unwrap();
    assert!(listed.accepted);
    assert_eq!(ex.book.rows.len(), 1);

    let mut buyer = Entity::Tier1(TierOneProdInstance {
        id: None,
        name: "B".to_string(),
        owner: 0,
        usd: 10_000,
        base_type: "Grain Company".to_string(),
        creates: Material::Grain,
        human_prod_rate: 1,
        robot_prod_rate: 2,
        max_human_workers: 10,
        max_robot_workers: 1,
        human_workers: Vec::new(),
        robot_workers: Vec::new(),
        owns: OwnsMaterials::new(),
    });
    buyer.save(&mut ex.companies);
    let bought = buyer.quick_buy(&mut ex, Material::Grain, 12, 30).unwrap();
    assert!(bought.accepted);
    assert_eq!(bought.legs.len(), 1);
    assert_eq!(buyer.usd(), 10_000 - 360);
    assert_eq!(buyer.materials().grain, 30);
    assert_eq!(ex.book.rows[0].quantity, 50);
}

#[test]
fn sell_all_liquidates_only_materials_with_bids() {
    let mut ex = Exchange::new();
    let mut bidder = Entity::Tier1(TierOneProdInstance {
        id: None,
        name: "Bidder".to_string(),
        owner: 0,
        usd: 100_000,
        base_type: "Grain Company".to_string(),
        creates: Material::Grain,
        human_prod_rate: 1,
        robot_prod_rate: 2,
        max_human_workers: 10,
        max_robot_workers: 1,
        human_workers: Vec::new(),
        robot_workers: Vec::new(),
        owns: OwnsMaterials::new(),
    });
    bidder.save(&mut ex.companies);
    // resting bids: 3 for grain, 8 for water (water bid is higher priced)
    bidder.quick_buy(&mut ex, Material::Grain, 3, 500).unwrap();
    bidder.quick_buy(&mut ex, Material::Water, 8, 500).unwrap();

    let mut farm = Entity::Tier1(TierOneProdInstance {
        id: None,
        name: "Farm".to_string(),
        owner: 0,
        usd: 0,
        base_type: "Grain Company".to_string(),
        creates: Material::Grain,
        human_prod_rate: 1,
        robot_prod_rate: 2,
        max_human_workers: 10,
        max_robot_workers: 1,
        human_workers: Vec::new(),
        robot_workers: Vec::new(),
        owns: OwnsMaterials { grain: 100, electricity: 40, water: 20, food: 0 },
    });
    farm.save(&mut ex.companies);

    let outcomes = farm.sell_all(&mut ex);
    assert_eq!(outcomes.len(), 4);
    assert_eq!(outcomes[0].0, Material::Electricity);
    assert!(matches!(outcomes[0].1, SellOutcome::NoBuyInterest));
    assert_eq!(outcomes[1].0, Material::Water);
    assert!(matches!(outcomes[1].1, SellOutcome::Sold(_)));
    assert_eq!(outcomes[2].0, Material::Grain);
    assert!(matches!(outcomes[2].1, SellOutcome::Sold(_)));
    assert_eq!(outcomes[3].0, Material::Food);
    assert!(matches!(outcomes[3].1, SellOutcome::NoStock));

    // 20 water at 8 plus 100 grain at 3
    assert_eq!(farm.usd(), 20 * 8 + 100 * 3);
    // the sold stock stays on the seller's books: the engine does not
    // collect sold inventory (a known gap carried from the design)
    assert_eq!(farm.materials().grain, 100);
}

#[test]
fn buy_needed_covers_the_recipe_shortfall() {
    let mut ex = Exchange::new();
    let mut vendor = Entity::Tier1(TierOneProdInstance {
        id: None,
        name: "Vendor".to_string(),
        owner: 0,
        usd: 0,
        base_type: "Power Plant".to_string(),
        creates: Material::Electricity,
        human_prod_rate: 1,
        robot_prod_rate: 2,
        max_human_workers: 10,
        max_robot_workers: 1,
        human_workers: Vec::new(),
        robot_workers: Vec::new(),
        owns: OwnsMaterials::new(),
    });
    vendor.save(&mut ex.companies);
    vendor.quick_sell(&mut ex, Material::Electricity, 2, 1_000).unwrap();
    vendor.quick_sell(&mut ex, Material::Water, 1, 1_000).unwrap();

    let mut factory = Entity::Tier2(TierTwoProdInstance {
        id: None,
        name: "Factory".to_string(),
        owner: 0,
        usd: 1_000,
        base_type: "Food Factory".to_string(),
        creates: Material::Food,
        human_prod_rate: 5,
        human_workers: Vec::new(),
        owns: OwnsMaterials { grain: 100, electricity: 5, water: 0, food: 0 },
        consumes: ConsumableRecipe::food_recipe(),
    });
    factory.save(&mut ex.companies);

    // recipe per unit: 10 electricity, 5 water, 5 grain; 5 units need
    // 50 / 25 / 25; owned 5 / 0 / 100
    let recipe = ConsumableRecipe::food_recipe();
    let outcomes = factory.buy_needed(&mut ex, &recipe, 5);
    assert_eq!(outcomes.len(), 3);
    assert_eq!(outcomes[0].0, Material::Electricity);
    assert!(matches!(outcomes[0].1, BuyOutcome::Bought(_)));
    assert_eq!(outcomes[1].0, Material::Water);
    assert!(matches!(outcomes[1].1, BuyOutcome::Bought(_)));
    assert_eq!(outcomes[2].0, Material::Grain);
    assert!(matches!(outcomes[2].1, BuyOutcome::Enough));

    assert_eq!(factory.materials().electricity, 50);
    assert_eq!(factory.materials().water, 25);
    // paid 45 * 2 for electricity and 25 * 1 for water
    assert_eq!(factory.usd(), 1_000 - 90 - 25);
}

#[test]
fn company_catalogs_match_the_simulation() {
    let t1 = tier_one_prod_list();
    assert_eq!(t1.len(), 3);
    assert_eq!(t1[0].kind_name, "Grain Company");
    assert_eq!(t1[0].human_prod_rate, 100);
    assert_eq!(t1[0].creates, Material::Grain);
    assert_eq!(t1[2].human_prod_rate, 1000);
    assert_eq!(t1[0].cost, 200);

    let t2 = tier_two_prod_list();
    assert_eq!(t2.len(), 1);
    assert_eq!(t2[0].kind_name, "Food Factory");
    assert_eq!(t2[0].cost, 400);
    assert_eq!(
        t2[0].consumes.inputs,
        vec![(Material::Electricity, 10), (Material::Water, 5), (Material::Grain, 5)]
    );
}
