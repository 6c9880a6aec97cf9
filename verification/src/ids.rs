//! Identifiers for messages that do not have one yet.

use vstd::prelude::*;
use vstd::string::*;

use crate::text::{decimal, decimal_stands_for_its_number, decimals_differ, push_decimal};

verus! {

/// Draws 64 bits with `rand::random`. Every value can come back, so nothing is
/// said of the result.
#[verifier::external_body]
fn random_bits() -> (r: u64) {
    rand::random::<u64>()
}

/// The identifier that two draws give.
pub open spec fn message_id(high: u64, low: u64) -> Seq<char> {
    "msg_"@ + decimal(high as nat) + "_"@ + decimal(low as nat)
}

/// The identifier that two draws give.
pub fn message_id_from(high: u64, low: u64) -> (r: String)
    ensures
        r@ == message_id(high, low),
{
    let mut out: String = "msg_".to_owned();
    push_decimal(&mut out, high);
    out.append("_");
    push_decimal(&mut out, low);
    out
}

/// The draws that one identifier is made of. Every pair of values can come back.
pub(crate) fn draw() -> (r: (u64, u64)) {
    (random_bits(), random_bits())
}

/// A new identifier, made of 128 random bits.
pub fn generate_message_id() -> (r: String)
    ensures
        exists|high: u64, low: u64| r@ == message_id(high, low),
{
    let (high, low): (u64, u64) = draw();
    message_id_from(high, low)
}

/// Different draws give different identifiers.
pub proof fn message_ids_differ(high: u64, low: u64, other_high: u64, other_low: u64)
    ensures
        message_id(high, low) == message_id(other_high, other_low) ==> high == other_high && low
            == other_low,
{
    reveal_strlit("msg_");
    reveal_strlit("_");
    let (a, b) = (decimal(high as nat), decimal(low as nat));
    let (c, d) = (decimal(other_high as nat), decimal(other_low as nat));
    let left = message_id(high, low);
    let right = message_id(other_high, other_low);
    if left == right {
        decimal_stands_for_its_number(high as nat);
        decimal_stands_for_its_number(other_high as nat);
        // The mark between the two numbers is no digit, so it stands in one place.
        if a.len() < c.len() {
            assert(left[4 + a.len() as int] == '_');
            assert(right[4 + a.len() as int] == c[a.len() as int]);
        }
        if c.len() < a.len() {
            assert(right[4 + c.len() as int] == '_');
            assert(left[4 + c.len() as int] == a[c.len() as int]);
        }
        assert(left.subrange(4, 4 + a.len() as int) =~= a);
        assert(right.subrange(4, 4 + c.len() as int) =~= c);
        assert(left.skip(5 + a.len() as int) =~= b);
        assert(right.skip(5 + c.len() as int) =~= d);
        decimals_differ(high as nat, other_high as nat);
        decimals_differ(low as nat, other_low as nat);
    }
}

} // verus!
