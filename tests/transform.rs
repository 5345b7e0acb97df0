use cart_transform::cart::{Attribute, Cart, CartLine, Input, Merchandise, Product};
use cart_transform::config::{configuration_from_shop, decode_configuration, Configuration, ConfigurationError};
use cart_transform::number::is_price;
use cart_transform::output::{Operation, Output};
use cart_transform::transform::{function, line_update, transform, wholesale_price_value};

fn attribute(key: &str, value: &str) -> Attribute {
    Attribute { key: key.to_string(), value: value.to_string() }
}

fn line(id: &str, quantity: i64, title: &str, attrs: Option<Vec<Attribute>>) -> CartLine {
    CartLine {
        id: id.to_string(),
        quantity,
        merchandise: Merchandise { product: Product { title: title.to_string() } },
        attribute: attrs,
    }
}

fn priced(id: &str, title: &str, price: &str) -> CartLine {
    line(id, 1, title, Some(vec![attribute("_wholesale_price", price)]))
}

fn config() -> Configuration {
    Configuration { shop: "demo-shop".to_string() }
}

fn run(lines: Vec<CartLine>) -> Output {
    transform(&config(), &Cart { lines })
}

fn amount(op: &Operation) -> String {
    op.update.price.adjustment.fixed_price_per_unit.as_ref().unwrap().amount.clone()
}

#[test]
fn single_wholesale_line_is_updated() {
    let out = run(vec![line("gid://1", 3, "Widget", Some(vec![attribute("_wholesale_price", "9.99")]))]);
    assert_eq!(out.operations.len(), 1);
    let op = &out.operations[0];
    assert_eq!(op.update.cart_line_id, "gid://1");
    assert_eq!(amount(op), "9.99");
    assert!(op.update.price.adjustment.percentage_decrease.is_none());
    assert_eq!(op.update.title.as_deref(), Some("Widget (Precio Mayorista)"));
}

#[test]
fn line_without_attributes_gives_nothing() {
    let out = run(vec![line("gid://1", 3, "Widget", None)]);
    assert!(out.operations.is_empty());
}

#[test]
fn empty_attribute_list_gives_nothing() {
    let out = run(vec![line("gid://1", 3, "Widget", Some(vec![]))]);
    assert!(out.operations.is_empty());
}

#[test]
fn empty_cart_gives_nothing() {
    assert!(run(vec![]).operations.is_empty());
}

#[test]
fn other_keys_give_nothing() {
    let out = run(vec![
        line("a", 1, "A", Some(vec![attribute("_wholesale", "1"), attribute("_Wholesale_Price", "2")])),
        line("b", 2, "B", Some(vec![attribute("color", "red")])),
    ]);
    assert!(out.operations.is_empty());
}

#[test]
fn malformed_prices_are_skipped() {
    for bad in ["abc", "", "12.5.3", ".", "-", "1e", "1e+", "inf", "NaN", " 1", "1 ", "1,5"] {
        let out = run(vec![priced("gid://1", "Widget", bad)]);
        assert!(out.operations.is_empty(), "{bad:?} should be skipped");
    }
}

#[test]
fn accepted_price_forms() {
    for good in ["10", "-3", "+2.5", "1.", ".5", "1e3", "2.5E-2", "007"] {
        assert!(is_price(good), "{good:?} should be accepted");
        let out = run(vec![priced("x", "T", good)]);
        assert_eq!(out.operations.len(), 1);
        assert_eq!(amount(&out.operations[0]), good);
    }
}

#[test]
fn rejected_price_forms() {
    for bad in ["", "+", ".e1", "1..2", "e5", "1e5.0", "--1", "0x10", "١٢"] {
        assert!(!is_price(bad), "{bad:?} should be rejected");
    }
}

#[test]
fn order_of_lines_is_kept() {
    let out = run(vec![
        priced("first", "One", "1.5"),
        priced("second", "Two", "oops"),
        line("third", 4, "Three", None),
        priced("fourth", "Four", "4"),
    ]);
    let ids: Vec<&str> = out.operations.iter().map(|o| o.update.cart_line_id.as_str()).collect();
    assert_eq!(ids, vec!["first", "fourth"]);
    assert_eq!(amount(&out.operations[0]), "1.5");
    assert_eq!(amount(&out.operations[1]), "4");
    assert_eq!(out.operations[1].update.title.as_deref(), Some("Four (Precio Mayorista)"));
}

#[test]
fn first_matching_attribute_wins() {
    let l = line(
        "gid://7",
        2,
        "Bolt",
        Some(vec![
            attribute("note", "x"),
            attribute("_wholesale_price", "bad"),
            attribute("_wholesale_price", "5"),
        ]),
    );
    assert_eq!(wholesale_price_value(&l), Some("bad".to_string()));
    assert!(run(vec![l]).operations.is_empty());
}

#[test]
fn wholesale_value_is_found_after_other_attributes() {
    let l = line("gid://8", 1, "Nut", Some(vec![attribute("a", "1"), attribute("_wholesale_price", "3.25")]));
    assert_eq!(wholesale_price_value(&l), Some("3.25".to_string()));
    assert_eq!(wholesale_price_value(&line("gid://9", 1, "Nut", None)), None);
}

#[test]
fn quantity_is_not_validated() {
    let out = run(vec![
        line("zero", 0, "Z", Some(vec![attribute("_wholesale_price", "2")])),
        line("neg", -5, "N", Some(vec![attribute("_wholesale_price", "3")])),
    ]);
    assert_eq!(out.operations.len(), 2);
    assert_eq!(amount(&out.operations[1]), "3");
}

#[test]
fn line_update_builds_the_operation() {
    let l = line("gid://2", 1, "Gadget", None);
    let op = line_update(&l, &"12.00".to_string());
    assert_eq!(op.update.cart_line_id, "gid://2");
    assert_eq!(amount(&op), "12.00");
    assert!(op.update.price.adjustment.percentage_decrease.is_none());
    assert_eq!(op.update.title.as_deref(), Some("Gadget (Precio Mayorista)"));
}

#[test]
fn repeated_runs_agree() {
    let lines = vec![priced("a", "A", "1"), line("b", 1, "B", None), priced("c", "C", "2.5")];
    let first = run(lines.clone());
    let second = run(lines);
    assert_eq!(format!("{:?}", first), format!("{:?}", second));
}

#[test]
fn configuration_decodes() {
    let c = decode_configuration(r#"{"shop":"acme","extra":1}"#).unwrap();
    assert_eq!(c.shop, "acme");
}

#[test]
fn configuration_without_shop_fails() {
    assert_eq!(decode_configuration("{}").unwrap_err(), ConfigurationError::MissingShop);
    assert_eq!(decode_configuration(r#"{"shop":3}"#).unwrap_err(), ConfigurationError::MissingShop);
}

#[test]
fn configuration_that_is_not_json_fails() {
    assert_eq!(decode_configuration("{shop:").unwrap_err(), ConfigurationError::InvalidJson);
    assert_eq!(decode_configuration("").unwrap_err(), ConfigurationError::InvalidJson);
}

#[test]
fn configuration_from_shop_cases() {
    assert_eq!(configuration_from_shop(Some("s".to_string())).unwrap().shop, "s");
    assert_eq!(configuration_from_shop(None).unwrap_err(), ConfigurationError::MissingShop);
}

#[test]
fn function_with_malformed_configuration_fails() {
    let input = Input {
        cart: Cart { lines: vec![priced("gid://1", "Widget", "9.99")] },
        configuration: "{\"shops\":\"x\"}".to_string(),
    };
    assert_eq!(function(&input).unwrap_err(), ConfigurationError::MissingShop);
}

#[test]
fn function_with_valid_configuration_transforms() {
    let input = Input {
        cart: Cart { lines: vec![line("gid://1", 3, "Widget", Some(vec![attribute("_wholesale_price", "9.99")]))] },
        configuration: "{\"shop\":\"x\"}".to_string(),
    };
    let out = function(&input).unwrap();
    assert_eq!(out.operations.len(), 1);
    assert_eq!(amount(&out.operations[0]), "9.99");
}

const OVERFLOW: &str = "179769313486231580793728971405303415079934132710037826936173778980444968292764750946649017977587207096330286416692887910946555547851940402630657488671505820681908902000708383676273854845817711531764475730270069855571366959622842914819860834936475292719074168444365510704342711559699508093042880177904174497792";
const BELOW_OVERFLOW: &str = "179769313486231580793728971405303415079934132710037826936173778980444968292764750946649017977587207096330286416692887910946555547851940402630657488671505820681908902000708383676273854845817711531764475730270069855571366959622842914819860834936475292719074168444365510704342711559699508093042880177904174497791";

#[test]
fn price_magnitude_limit() {
    let mut good: Vec<String> = ["1e307", "9.99e307", "1e308", "10e307", "0.1e309", "1.7976931348623157e308",
        "1.7976931348623158e308", "0e999999", "1e-999999", "0.000", "-5e307", "1000e-3"]
        .iter()
        .map(|s| s.to_string())
        .collect();
    good.push(BELOW_OVERFLOW.to_string());
    good.push(format!("-{BELOW_OVERFLOW}"));
    good.push(format!("{OVERFLOW}e-1"));
    good.push(format!("{BELOW_OVERFLOW}.999999"));
    for g in &good {
        assert!(is_price(g), "{g:?} should be accepted");
        assert!(g.parse::<f64>().unwrap().is_finite());
    }
    let mut bad: Vec<String> = ["1e309", "1e400", "-1e400", "1.797693134862315808e308", "1e99999999999999999999999"]
        .iter()
        .map(|s| s.to_string())
        .collect();
    bad.push(OVERFLOW.to_string());
    bad.push(format!("-{OVERFLOW}"));
    bad.push(format!("0.{OVERFLOW}e309"));
    for b in &bad {
        assert!(!is_price(b), "{b:?} should be rejected");
        assert!(!b.parse::<f64>().unwrap().is_finite());
    }
}

#[test]
fn largest_finite_price_is_updated() {
    let out = run(vec![priced("max", "Top", "1e308")]);
    assert_eq!(out.operations.len(), 1);
    assert_eq!(amount(&out.operations[0]), "1e308");
}

#[test]
fn out_of_range_price_is_skipped() {
    let out = run(vec![priced("big", "Huge", "1e400"), priced("ok", "Fine", "2")]);
    assert_eq!(out.operations.len(), 1);
    assert_eq!(out.operations[0].update.cart_line_id, "ok");
}

#[test]
fn function_with_empty_cart_succeeds() {
    let input = Input { cart: Cart { lines: vec![] }, configuration: "{\"shop\":\"x\"}".to_string() };
    assert!(function(&input).unwrap().operations.is_empty());
}

#[test]
fn configuration_that_is_not_an_object_fails() {
    assert_eq!(decode_configuration("[1]").unwrap_err(), ConfigurationError::MissingShop);
    assert_eq!(decode_configuration("\"shop\"").unwrap_err(), ConfigurationError::MissingShop);
}
