//! The operations handed back to the host.

use vstd::prelude::*;

verus! {

/// A money amount, held as the decimal text that it was read from.
#[derive(Clone, Debug)]
pub struct Money {
    pub amount: String,
}

/// A price change: this transformer always fills `fixed_price_per_unit`
/// and leaves `percentage_decrease` empty.
#[derive(Clone, Debug)]
pub struct PriceAdjustment {
    pub percentage_decrease: Option<String>,
    pub fixed_price_per_unit: Option<Money>,
}

#[derive(Clone, Debug)]
pub struct Price {
    pub adjustment: PriceAdjustment,
}

/// The new price and title of one cart line.
#[derive(Clone, Debug)]
pub struct CartLineUpdate {
    pub cart_line_id: String,
    pub price: Price,
    pub title: Option<String>,
}

#[derive(Clone, Debug)]
pub struct Operation {
    pub update: CartLineUpdate,
}

#[derive(Clone, Debug)]
pub struct Output {
    pub operations: Vec<Operation>,
}

/// The content of an operation, as plain sequences.
pub struct UpdateModel {
    pub cart_line_id: Seq<char>,
    pub percentage_decrease: Option<Seq<char>>,
    pub fixed_price_per_unit: Option<Seq<char>>,
    pub title: Option<Seq<char>>,
}

impl View for Operation {
    type V = UpdateModel;

    open spec fn view(&self) -> UpdateModel {
        UpdateModel {
            cart_line_id: self.update.cart_line_id@,
            percentage_decrease: match self.update.price.adjustment.percentage_decrease {
                Some(p) => Some(p@),
                None => None,
            },
            fixed_price_per_unit: match self.update.price.adjustment.fixed_price_per_unit {
                Some(m) => Some(m.amount@),
                None => None,
            },
            title: match self.update.title {
                Some(t) => Some(t@),
                None => None,
            },
        }
    }
}

impl View for Output {
    type V = Seq<UpdateModel>;

    open spec fn view(&self) -> Seq<UpdateModel> {
        self.operations@.map_values(|o: Operation| o@)
    }
}

} // verus!
