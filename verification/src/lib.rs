//! A small persistent-commodity-exchange engine for a text-driven economic
//! simulation: production facilities buy and sell materials against a shared
//! order book under a price-priority rule, with maker-price settlement,
//! partial fills and typed record keeping. All money amounts are integers in
//! minor currency units; all quantities are integer unit counts.

pub mod base_prod;
pub mod book;
pub mod company_data;
pub mod entity;
pub mod exchange;
pub mod manufacturing;
pub mod materials;
pub mod money;
pub mod offer_type;
pub mod player;
pub mod production_companies;
pub mod recipies;
pub mod store;
pub mod strategies;
pub mod workers;
