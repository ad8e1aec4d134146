use vstd::prelude::*;
use std::collections::BTreeMap;
use near_sdk::json_types::U128;

verus! {

/// The most payees a single settlement may pay.
pub const MAX_PAYOUT_ENTRIES: usize = 10;

/// What the custody service's serialized payout decodes to: its payee → amount
/// entries by payee, or `None` where the bytes are no such mapping.
pub uninterp spec fn payout_json(b: Seq<u8>) -> Option<Seq<(Seq<char>, u128)>>;

/// Relies on `near_sdk::serde_json::from_slice` into a `BTreeMap<String, U128>`:
/// a JSON object whose values are decimal strings (read by `U128`'s
/// `Deserialize`, `u128::from_str_radix`) decodes to its entries in key order,
/// anything else to an error.
#[verifier::external_body]
pub(crate) fn decode_payout(b: &Vec<u8>) -> (r: Option<Vec<(String, u128)>>)
    ensures
        r.deep_view() == payout_json(b@),
{
    near_sdk::serde_json::from_slice::<BTreeMap<String, U128>>(b)
        .ok()
        .map(|m| m.into_iter().map(|(k, v)| (k, v.0)).collect())
}

/// The sum of the amounts of a payout.
pub open spec fn payout_total(p: Seq<(Seq<char>, u128)>) -> int
    decreases p.len(),
{
    if p.len() == 0 {
        0
    } else {
        payout_total(p.drop_last()) + p.last().1 as int
    }
}

/// A payout is acceptable for `amount`: one to ten entries whose amounts sum to
/// `amount` or to one unit less.
pub open spec fn payout_valid(amount: u128, p: Seq<(Seq<char>, u128)>) -> bool {
    &&& 1 <= p.len() <= MAX_PAYOUT_ENTRIES
    &&& payout_total(p) <= amount
    &&& amount - payout_total(p) <= 1
}

proof fn lemma_total_prefix_step(p: Seq<(Seq<char>, u128)>, i: int)
    requires
        0 <= i < p.len(),
    ensures
        payout_total(p.take(i + 1)) == payout_total(p.take(i)) + p[i].1,
{
    assert(p.take(i + 1).drop_last() =~= p.take(i));
}

proof fn lemma_total_monotone(p: Seq<(Seq<char>, u128)>, i: int)
    requires
        0 <= i <= p.len(),
    ensures
        payout_total(p.take(i)) <= payout_total(p),
    decreases p.len() - i,
{
    if i < p.len() {
        lemma_total_prefix_step(p, i);
        lemma_total_monotone(p, i + 1);
    } else {
        assert(p.take(i) =~= p);
    }
}

/// Decodes the custody service's payout for `amount`, keeping it only where it
/// is acceptable.
pub fn validate_payout(amount: u128, payout: Vec<(String, u128)>) -> (r: Option<Vec<(String, u128)>>)
    ensures
        r.deep_view() == (if payout_valid(amount, payout.deep_view()) {
            Some(payout.deep_view())
        } else {
            None::<Seq<(Seq<char>, u128)>>
        }),
{
    if payout.len() > MAX_PAYOUT_ENTRIES || payout.len() == 0 {
        return None;
    }
    let ghost p = payout.deep_view();
    let mut remainder: u128 = amount;
    let mut i: usize = 0;
    while i < payout.len()
        invariant
            p == payout.deep_view(),
            0 <= i <= payout.len(),
            remainder == amount - payout_total(p.take(i as int)),
        decreases payout.len() - i,
    {
        proof {
            lemma_total_prefix_step(p, i as int);
        }
        let value = payout[i].1;
        assert(value == p[i as int].1);
        match remainder.checked_sub(value) {
            Some(rest) => {
                remainder = rest;
            },
            None => {
                proof {
                    lemma_total_monotone(p, i + 1);
                }
                return None;
            },
        }
        i = i + 1;
    }
    assert(p.take(payout.len() as int) =~= p);
    if remainder == 0 || remainder == 1 {
        Some(payout)
    } else {
        None
    }
}

} // verus!
