use our_economy::base_prod::{all_prods, Prod};
use our_economy::book::Book;
use our_economy::materials::{Material, OwnsMaterials};
use our_economy::offer_type::OfferType;
use our_economy::recipies::{ConsumableRecipe, Recipe};

#[test]
fn material_keys_round_trip() {
    for m in [Material::Grain, Material::Electricity, Material::Water, Material::Food] {
        assert_eq!(Material::from_str(m.to_string_key()), Some(m));
        assert_eq!(m.display_name(), m.to_string_key());
    }
    assert_eq!(Material::from_str("Oil"), None);
    assert_eq!(Material::from_str(""), None);
    assert_eq!(Material::from_str("grain"), None, "keys are case sensitive");
}

#[test]
fn material_units() {
    assert_eq!(Material::Grain.unit(), "kg");
    assert_eq!(Material::Electricity.unit(), "kWh");
    assert_eq!(Material::Water.unit(), "liters");
    assert_eq!(Material::Food.unit(), "packages");
    assert_eq!(
        Material::all(),
        vec![Material::Grain, Material::Electricity, Material::Water, Material::Food]
    );
}

#[test]
fn inventory_saturates_instead_of_overflowing() {
    let mut owns = OwnsMaterials::new();
    owns.add(Material::Grain, u32::MAX - 5);
    owns.add(Material::Grain, 10);
    assert_eq!(owns.grain, u32::MAX);
    owns.remove(Material::Grain, u32::MAX);
    assert_eq!(owns.grain, 0);
    owns.add(Material::Water, 5);
    owns.remove(Material::Water, 7);
    assert_eq!(owns.water, 5, "an overdraw removes nothing, as a warning case");
    owns.remove(Material::Water, 5);
    assert_eq!(owns.water, 0);
}

#[test]
fn recipes_list_their_inputs() {
    let food = Recipe::food();
    assert_eq!(
        food.inputs,
        vec![(Material::Electricity, 10), (Material::Water, 5), (Material::Grain, 5)]
    );
    assert!(Recipe::empty().inputs.is_empty());
    let custom = Recipe::dynamic(vec![(Material::Water, 2)]);
    assert_eq!(custom.inputs, vec![(Material::Water, 2)]);
    assert_eq!(ConsumableRecipe::food_recipe().inputs, food.inputs);
}

#[test]
fn the_generic_facility_catalog() {
    let prods = all_prods();
    assert_eq!(prods.len(), 4);
    assert_eq!(prods[0].kind_name, "Water Company");
    assert_eq!(prods[0].human_prod_rate, 500);
    assert_eq!(prods[3].kind_name, "Food Processing Plant");
    assert_eq!(prods[3].cost, 500);
    assert_eq!(prods[3].recipe.inputs.len(), 3);
    let p = Prod::new("Mill".to_string(), 7, Material::Grain, Recipe::empty(), 42);
    assert_eq!(p.max_human_workers, 10);
    assert_eq!(p.cost, 42);
}

#[test]
fn book_price_queries() {
    let mut book = Book::new();
    assert_eq!(book.max_buy_price(Material::Grain), None);
    assert_eq!(book.min_sell_price(Material::Grain), None);
    book.insert(Material::Grain, OfferType::Buy, 10, 4, 1, 1);
    book.insert(Material::Grain, OfferType::Buy, 10, 9, 1, 1);
    book.insert(Material::Grain, OfferType::Sell, 10, 15, 2, 1);
    book.insert(Material::Grain, OfferType::Sell, 10, 12, 2, 1);
    book.insert(Material::Water, OfferType::Buy, 10, 99, 3, 1);
    assert_eq!(book.max_buy_price(Material::Grain), Some(9));
    assert_eq!(book.min_sell_price(Material::Grain), Some(12));
    assert_eq!(book.max_buy_price(Material::Water), Some(99));
    assert_eq!(book.min_sell_price(Material::Water), None);
}

#[test]
fn offer_type_flags_round_trip() {
    assert!(OfferType::Buy.to_flag());
    assert!(!OfferType::Sell.to_flag());
    assert_eq!(OfferType::from_flag(true), OfferType::Buy);
    assert_eq!(OfferType::from_flag(false), OfferType::Sell);
    assert_eq!(OfferType::Buy.opposite(), OfferType::Sell);
    assert_eq!(OfferType::Sell.opposite(), OfferType::Buy);
}
