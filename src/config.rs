//! The per-shop configuration, decoded from the JSON text of the input.

use vstd::prelude::*;

verus! {

/// Settings of one shop.
#[derive(Clone, Debug)]
pub struct Configuration {
    pub shop: String,
}

/// Why a configuration text could not be decoded.
#[derive(Clone, Copy, Debug, PartialEq, Eq)]
pub enum ConfigurationError {
    /// serde_json could not read the text.
    InvalidJson,
    /// The JSON holds no string member `shop`.
    MissingShop,
}

/// A JSON value of `serde_json`, carried through opaque.
#[verifier::external_type_specification]
#[verifier::external_body]
pub struct ExJsonValue(serde_json::Value);

/// A parse error of `serde_json`, carried through opaque.
#[verifier::external_type_specification]
#[verifier::external_body]
pub struct ExJsonError(serde_json::Error);

/// Whether `serde_json` reads `s` as a JSON value.
pub uninterp spec fn is_json_text(s: Seq<char>) -> bool;

/// The string that `serde_json` finds as member `key` of the JSON object read
/// from `s`; none where `s` does not read as JSON, is not an object, or has no
/// member `key` whose value is a string.
pub uninterp spec fn json_string_member(s: Seq<char>, key: Seq<char>) -> Option<Seq<char>>;

/// Relies on `serde_json::from_str::<serde_json::Value>`, which fails exactly
/// where the text does not read as JSON, and on `serde_json::Value::get`, which
/// looks up the member `key` of an object: the string value of that member.
#[verifier::external_body]
fn read_string_member(text: &str, key: &str) -> (r: Result<Option<String>, serde_json::Error>)
    ensures
        r is Ok <==> is_json_text(text@),
        match r {
            Ok(Some(m)) => json_string_member(text@, key@) == Some(m@),
            _ => json_string_member(text@, key@) is None,
        },
{
    match serde_json::from_str::<serde_json::Value>(text) {
        Ok(v) => match v.get(key) {
            Some(serde_json::Value::String(m)) => Ok(Some(m.clone())),
            _ => Ok(None),
        },
        Err(e) => Err(e),
    }
}

/// The name of the member that holds the shop.
pub const SHOP_MEMBER: &'static str = "shop";

/// The configuration whose shop member was read as `shop`, if there was one.
pub fn configuration_from_shop(shop: Option<String>) -> (r: Result<Configuration, ConfigurationError>)
    ensures
        match shop {
            Some(s) => r matches Ok(c) && c.shop@ == s@,
            None => r == Err::<Configuration, ConfigurationError>(ConfigurationError::MissingShop),
        },
{
    match shop {
        Some(s) => Ok(Configuration { shop: s }),
        None => Err(ConfigurationError::MissingShop),
    }
}

/// Decodes a configuration from its JSON text: an object with a string member
/// `shop`. Text that serde_json cannot read gives `InvalidJson`; JSON without
/// that member gives `MissingShop`.
pub fn decode_configuration(text: &str) -> (r: Result<Configuration, ConfigurationError>)
    ensures
        match json_string_member(text@, SHOP_MEMBER@) {
            Some(shop) => r matches Ok(c) && c.shop@ == shop,
            None => r is Err,
        },
        r == Err::<Configuration, ConfigurationError>(ConfigurationError::InvalidJson) <==> !is_json_text(text@),
        r == Err::<Configuration, ConfigurationError>(ConfigurationError::MissingShop) <==> (is_json_text(text@)
            && json_string_member(text@, SHOP_MEMBER@) is None),
{
    match read_string_member(text, SHOP_MEMBER) {
        Ok(shop) => configuration_from_shop(shop),
        Err(_) => Err(ConfigurationError::InvalidJson),
    }
}

} // verus!
