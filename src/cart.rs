//! The cart snapshot handed to the transformer.

use vstd::prelude::*;

verus! {

/// A key/value pair of line-level metadata.
#[derive(Clone, Debug)]
pub struct Attribute {
    pub key: String,
    pub value: String,
}

#[derive(Clone, Debug)]
pub struct Product {
    pub title: String,
}

#[derive(Clone, Debug)]
pub struct Merchandise {
    pub product: Product,
}

/// One merchandise entry of the cart. The quantity is taken as given, zero and
/// negative values included.
#[derive(Clone, Debug)]
pub struct CartLine {
    pub id: String,
    pub quantity: i64,
    pub merchandise: Merchandise,
    pub attribute: Option<Vec<Attribute>>,
}

/// The cart's lines, in order.
#[derive(Clone, Debug)]
pub struct Cart {
    pub lines: Vec<CartLine>,
}

/// What the host hands over: the cart and the configuration as JSON text.
#[derive(Clone, Debug)]
pub struct Input {
    pub cart: Cart,
    pub configuration: String,
}

} // verus!
