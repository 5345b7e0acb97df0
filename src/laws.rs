//! What holds of the transformer on every cart.

use vstd::prelude::*;
use crate::cart::CartLine;
use crate::config::{json_string_member, ConfigurationError, SHOP_MEMBER};
use crate::number::is_price_text;
use crate::output::Output;
use crate::transform::{
    eligible_price, expected_updates, is_first_with_key, update_of, wholesale_signal,
    WHOLESALE_PRICE_KEY,
};

verus! {

/// The line has an attribute keyed by the wholesale price key.
pub open spec fn carries_signal(line: CartLine) -> bool {
    line.attribute matches Some(a) && exists|j: int|
        0 <= j < a@.len() && #[trigger] a@[j].key@ == WHOLESALE_PRICE_KEY@
}

/// The indexes of the eligible lines, in increasing order.
pub open spec fn eligible_indexes(lines: Seq<CartLine>) -> Seq<int>
    decreases lines.len(),
{
    if lines.len() == 0 {
        Seq::empty()
    } else {
        let before = eligible_indexes(lines.drop_last());
        if eligible_price(lines.last()) is Some {
            before.push(lines.len() - 1)
        } else {
            before
        }
    }
}

/// The `k`-th update is that of the `k`-th eligible line, and the eligible
/// lines are taken in increasing order, each once: updates keep the order of
/// their lines and no line is updated twice. Every eligible line is updated.
pub proof fn lemma_updates_follow_lines(lines: Seq<CartLine>)
    ensures
        expected_updates(lines).len() == eligible_indexes(lines).len(),
        forall|k: int|
            0 <= k < eligible_indexes(lines).len() ==> {
                let i = #[trigger] eligible_indexes(lines)[k];
                &&& 0 <= i < lines.len()
                &&& eligible_price(lines[i]) is Some
                &&& expected_updates(lines)[k] == update_of(lines[i], eligible_price(lines[i])->0)
            },
        forall|k1: int, k2: int|
            0 <= k1 < k2 < eligible_indexes(lines).len() ==> eligible_indexes(lines)[k1]
                < eligible_indexes(lines)[k2],
        forall|i: int|
            0 <= i < lines.len() && (#[trigger] eligible_price(lines[i])) is Some ==> exists|k: int|
                0 <= k < eligible_indexes(lines).len() && eligible_indexes(lines)[k] == i,
    decreases lines.len(),
{
    if lines.len() > 0 {
        let rest = lines.drop_last();
        lemma_updates_follow_lines(rest);
        let n = lines.len() - 1;
        assert forall|i: int| 0 <= i < n implies lines[i] == rest[i] by {}
        let idx = eligible_indexes(lines);
        let before = eligible_indexes(rest);
        assert forall|i: int|
            0 <= i < lines.len() && (#[trigger] eligible_price(lines[i])) is Some implies exists|k: int|
                0 <= k < idx.len() && idx[k] == i by {
            if i < n {
                assert(eligible_price(rest[i]) is Some);
                let k = choose|k: int| 0 <= k < before.len() && before[k] == i;
                assert(idx[k] == i);
            } else {
                assert(idx[idx.len() - 1] == i);
            }
        }
    }
}

/// Every eligible line with price `p` gets an update that fixes its unit
/// price at `p` and leaves the percentage decrease empty.
pub proof fn lemma_eligible_line_updated(lines: Seq<CartLine>, i: int, p: Seq<char>)
    requires
        0 <= i < lines.len(),
        eligible_price(lines[i]) == Some(p),
    ensures
        exists|k: int|
            0 <= k < expected_updates(lines).len() && #[trigger] expected_updates(lines)[k]
                == update_of(lines[i], p),
        update_of(lines[i], p).fixed_price_per_unit == Some(p),
        update_of(lines[i], p).percentage_decrease is None,
{
    lemma_updates_follow_lines(lines);
    let k = choose|k: int|
        0 <= k < eligible_indexes(lines).len() && eligible_indexes(lines)[k] == i;
    assert(expected_updates(lines)[k] == update_of(lines[i], p));
}

/// A line whose wholesale price text is not a price (not a decimal number, or
/// one of 10^308 or more in magnitude) gets no update: no update is that of
/// such a line.
pub proof fn lemma_malformed_price_skipped(lines: Seq<CartLine>, i: int, t: Seq<char>)
    requires
        0 <= i < lines.len(),
        wholesale_signal(lines[i]) == Some(t),
        !is_price_text(t),
    ensures
        forall|k: int|
            0 <= k < eligible_indexes(lines).len() ==> #[trigger] eligible_indexes(lines)[k] != i,
{
    lemma_updates_follow_lines(lines);
}

/// A cart in which no line carries the wholesale price key gets no update.
pub proof fn lemma_no_signal_no_updates(lines: Seq<CartLine>)
    requires
        forall|i: int| 0 <= i < lines.len() ==> !carries_signal(#[trigger] lines[i]),
    ensures
        expected_updates(lines).len() == 0,
    decreases lines.len(),
{
    if lines.len() > 0 {
        let rest = lines.drop_last();
        assert forall|i: int| 0 <= i < rest.len() implies !carries_signal(#[trigger] rest[i]) by {
            assert(rest[i] == lines[i]);
        }
        lemma_no_signal_no_updates(rest);
        let last = lines.last();
        assert(!carries_signal(lines[lines.len() - 1]));
        if let Some(a) = last.attribute {
            if exists|j: int| is_first_with_key(a@, WHOLESALE_PRICE_KEY@, j) {
                let j = choose|j: int| is_first_with_key(a@, WHOLESALE_PRICE_KEY@, j);
                assert(a@[j].key@ == WHOLESALE_PRICE_KEY@);
            }
        }
    }
}

/// Two runs on the same input agree: both fail, or both succeed with the same
/// operations. Whether a run succeeds depends on the configuration text
/// alone, never on the cart.
pub proof fn lemma_runs_agree(
    configuration: Seq<char>,
    lines: Seq<CartLine>,
    first: Result<Output, ConfigurationError>,
    second: Result<Output, ConfigurationError>,
)
    requires
        first is Ok <==> json_string_member(configuration, SHOP_MEMBER@) is Some,
        second is Ok <==> json_string_member(configuration, SHOP_MEMBER@) is Some,
        first matches Ok(o) ==> o@ == expected_updates(lines),
        second matches Ok(o) ==> o@ == expected_updates(lines),
    ensures
        first is Ok <==> second is Ok,
        first matches Ok(a) ==> second matches Ok(b) && a@ == b@,
{
}

} // verus!
