//! Choosing one item to deliver out of the unread candidates: a drawn
//! random number picks the index, and an empty candidate set is reported
//! rather than delivered.

use vstd::prelude::*;

verus! {

use crate::bytes::copy_bytes;

/// What a delivery turns into once the candidate set is known.
pub enum DeliveryDecision {
    /// Deliver the item with this identifier.
    Item { item_id: Vec<u8> },
    /// The candidate set was empty: notify the user instead, as for a
    /// failed external call; the periodic cycle alone retries.
    NoCandidates,
}

/// Relies on rand::random: a freshly drawn 64-bit value; nothing is
/// assumed about which value comes back.
#[verifier::external_body]
fn draw_random() -> u64 {
    rand::random::<u64>()
}

/// The candidate the drawn number `n` selects: the one at `n` modulo the
/// candidate count.
pub fn choose_delivery(items: &Vec<Vec<u8>>, n: u64) -> (r: DeliveryDecision)
    ensures
        items@.len() == 0 ==> r is NoCandidates,
        items@.len() > 0 ==> (r matches DeliveryDecision::Item { item_id } && item_id@
            == items@[n as int % items@.len() as int]@),
{
    if items.len() == 0 {
        DeliveryDecision::NoCandidates
    } else {
        let i = (n % (items.len() as u64)) as usize;
        DeliveryDecision::Item { item_id: copy_bytes(items[i].as_slice()) }
    }
}

/// Draws the random number and chooses: whatever was drawn, an empty set
/// yields the failure report and a non-empty set yields one of its own
/// items.
pub fn pick_delivery(items: &Vec<Vec<u8>>) -> (r: DeliveryDecision)
    ensures
        items@.len() == 0 ==> r is NoCandidates,
        items@.len() > 0 ==> (r matches DeliveryDecision::Item { item_id } && exists|i: int|
            0 <= i < items@.len() && item_id@ == items@[i]@),
{
    let n = draw_random();
    let r = choose_delivery(items, n);
    proof {
        if items@.len() > 0 {
            assert(0 <= n as int % (items@.len() as int) < items@.len() as int);
        }
    }
    r
}

} // verus!
