//! The side of a trade intent.

use vstd::prelude::*;

verus! {

/// Whether an offer buys or sells.
#[derive(Clone, Copy, Debug, PartialEq, Eq, Structural, Hash)]
pub enum OfferType {
    Buy,
    Sell,
}

impl OfferType {
    /// The side a resting order must have to cross this one.
    pub open spec fn opposite_spec(self) -> OfferType {
        match self {
            OfferType::Buy => OfferType::Sell,
            OfferType::Sell => OfferType::Buy,
        }
    }

    pub fn opposite(self) -> (r: OfferType)
        ensures
            r == self.opposite_spec(),
    {
        match self {
            OfferType::Buy => OfferType::Sell,
            OfferType::Sell => OfferType::Buy,
        }
    }

    /// The flag under which the side is persisted: buys are `true`.
    pub fn to_flag(self) -> (r: bool)
        ensures
            r == (self == OfferType::Buy),
    {
        match self {
            OfferType::Buy => true,
            OfferType::Sell => false,
        }
    }

    /// The side persisted under `value`.
    pub fn from_flag(value: bool) -> (r: OfferType)
        ensures
            r == (if value {
                OfferType::Buy
            } else {
                OfferType::Sell
            }),
    {
        if value {
            OfferType::Buy
        } else {
            OfferType::Sell
        }
    }
}

} // verus!
