//! The transformer: one update per line that carries a valid wholesale price.

use vstd::prelude::*;
use vstd::string::{StrSliceExecFns, StringExecFns};
use crate::cart::{Attribute, Cart, CartLine, Input};
use crate::config::{
    decode_configuration, is_json_text, json_string_member, Configuration, ConfigurationError,
    SHOP_MEMBER,
};
use crate::number::{is_price, is_price_text};
use crate::output::{CartLineUpdate, Money, Operation, Output, Price, PriceAdjustment, UpdateModel};

verus! {

/// The attribute key that carries a line's wholesale unit price.
pub const WHOLESALE_PRICE_KEY: &'static str = "_wholesale_price";

/// What is appended to the product title of an updated line.
pub const WHOLESALE_TITLE_SUFFIX: &'static str = " (Precio Mayorista)";

/// `attrs[i]` is the first attribute whose key is `key`.
pub open spec fn is_first_with_key(attrs: Seq<Attribute>, key: Seq<char>, i: int) -> bool {
    &&& 0 <= i < attrs.len()
    &&& attrs[i].key@ == key
    &&& forall|j: int| 0 <= j < i ==> attrs[j].key@ != key
}

/// The value of the line's first attribute keyed by the wholesale price key,
/// if the line has one.
pub open spec fn wholesale_signal(line: CartLine) -> Option<Seq<char>> {
    match line.attribute {
        None => None,
        Some(attrs) => {
            if exists|i: int| is_first_with_key(attrs@, WHOLESALE_PRICE_KEY@, i) {
                let i = choose|i: int| is_first_with_key(attrs@, WHOLESALE_PRICE_KEY@, i);
                Some(attrs@[i].value@)
            } else {
                None
            }
        },
    }
}

/// The wholesale unit price of an eligible line: its signal, where that is a
/// price (a decimal number below 10^308 in magnitude).
pub open spec fn eligible_price(line: CartLine) -> Option<Seq<char>> {
    match wholesale_signal(line) {
        Some(t) => if is_price_text(t) {
            Some(t)
        } else {
            None
        },
        None => None,
    }
}

/// The update that a line with wholesale unit price `price` receives.
pub open spec fn update_of(line: CartLine, price: Seq<char>) -> UpdateModel {
    UpdateModel {
        cart_line_id: line.id@,
        percentage_decrease: None,
        fixed_price_per_unit: Some(price),
        title: Some(line.merchandise.product.title@ + WHOLESALE_TITLE_SUFFIX@),
    }
}

/// The updates for `lines`, one per eligible line, in the order of the lines.
pub open spec fn expected_updates(lines: Seq<CartLine>) -> Seq<UpdateModel>
    decreases lines.len(),
{
    if lines.len() == 0 {
        Seq::empty()
    } else {
        let before = expected_updates(lines.drop_last());
        match eligible_price(lines.last()) {
            Some(p) => before.push(update_of(lines.last(), p)),
            None => before,
        }
    }
}

/// The value of the line's first attribute keyed `_wholesale_price`, if any.
pub fn wholesale_price_value(line: &CartLine) -> (r: Option<String>)
    ensures
        match r {
            Some(v) => wholesale_signal(*line) == Some(v@),
            None => wholesale_signal(*line) is None,
        },
{
    let key = String::from_str(WHOLESALE_PRICE_KEY);
    match &line.attribute {
        None => None,
        Some(attrs) => {
            let mut i: usize = 0;
            while i < attrs.len()
                invariant
                    key@ == WHOLESALE_PRICE_KEY@,
                    line.attribute == Some(*attrs),
                    i <= attrs@.len(),
                    forall|j: int| 0 <= j < i ==> attrs@[j].key@ != key@,
                decreases attrs.len() - i,
            {
                if attrs[i].key == key {
                    let v = attrs[i].value.clone();
                    proof {
                        let a = line.attribute->0;
                        assert(is_first_with_key(a@, WHOLESALE_PRICE_KEY@, i as int));
                        let k = choose|k: int| is_first_with_key(a@, WHOLESALE_PRICE_KEY@, k);
                        assert(k == i) by {
                            if k < i {
                                assert(a@[k].key@ != key@);
                            } else if k > i {
                                assert(a@[i as int].key@ != key@);
                            }
                        }
                    }
                    return Some(v);
                }
                i = i + 1;
            }
            proof {
                assert forall|k: int| !is_first_with_key(attrs@, WHOLESALE_PRICE_KEY@, k) by {
                    if 0 <= k < attrs@.len() {
                        assert(attrs@[k].key@ != key@);
                    }
                }
            }
            None
        },
    }
}

/// The update of `line` to the wholesale unit price `price`.
pub fn line_update(line: &CartLine, price: &String) -> (r: Operation)
    ensures
        r@ == update_of(*line, price@),
{
    let title = line.merchandise.product.title.clone().concat(WHOLESALE_TITLE_SUFFIX);
    Operation {
        update: CartLineUpdate {
            cart_line_id: line.id.clone(),
            price: Price {
                adjustment: PriceAdjustment {
                    percentage_decrease: None,
                    fixed_price_per_unit: Some(Money { amount: price.clone() }),
                },
            },
            title: Some(title),
        },
    }
}

/// The operations for `cart`: one update per line that carries a wholesale
/// price, in the order of the lines. The configuration is not consulted yet.
pub fn transform(_config: &Configuration, cart: &Cart) -> (r: Output)
    ensures
        r@ == expected_updates(cart.lines@),
{
    let lines = &cart.lines;
    let mut operations: Vec<Operation> = Vec::new();
    let mut i: usize = 0;
    while i < lines.len()
        invariant
            i <= lines@.len(),
            operations@.map_values(|o: Operation| o@) == expected_updates(lines@.subrange(0, i as int)),
        decreases lines.len() - i,
    {
        let line = &lines[i];
        let ghost before = operations@;
        proof {
            let next = lines@.subrange(0, i + 1);
            assert(next.drop_last() =~= lines@.subrange(0, i as int));
            assert(next.last() == *line);
        }
        match wholesale_price_value(line) {
            Some(price) => {
                if is_price(price.as_str()) {
                    operations.push(line_update(line, &price));
                    assert(operations@.map_values(|o: Operation| o@) =~= before.map_values(
                        |o: Operation| o@,
                    ).push(update_of(*line, price@)));
                }
            },
            None => {},
        }
        i = i + 1;
    }
    assert(lines@.subrange(0, lines@.len() as int) =~= lines@);
    Output { operations }
}

/// Runs the transformer on the host's input: decodes the configuration, then
/// computes the operations for the cart. Succeeds exactly where the
/// configuration holds a string member `shop`, whatever the cart holds.
pub fn function(input: &Input) -> (r: Result<Output, ConfigurationError>)
    ensures
        r is Ok <==> json_string_member(input.configuration@, SHOP_MEMBER@) is Some,
        match r {
            Ok(o) => o@ == expected_updates(input.cart.lines@),
            Err(e) => (e == ConfigurationError::InvalidJson) == !is_json_text(input.configuration@),
        },
{
    match decode_configuration(input.configuration.as_str()) {
        Ok(config) => Ok(transform(&config, &input.cart)),
        Err(e) => Err(e),
    }
}

} // verus!
