//! What holds of every marketplace, whatever is asked of it and in whatever order.

use crate::fees::{fee_covered, fee_of};
use crate::market::{Call, Market, Settlement};
use crate::storage::lemma_listed_below_dense;
use crate::types::{Address, Error, Prompt};
use vstd::prelude::*;

verus! {

/// The state before call `k + 1` is the one that call `k` leaves.
proof fn lemma_before_next(m: Market, calls: Seq<Call>, k: int)
    requires
        0 <= k < calls.len(),
    ensures
        m.before(calls, k + 1) == m.before(calls, k).after(calls[k]),
{
    assert(calls.take(k + 1).drop_last() == calls.take(k));
    assert(calls.take(k + 1).last() == calls[k]);
}

/// A call leaves a well-formed marketplace well-formed, with every record it had, and
/// moves the counter on by one where it creates and not at all where it does not.
pub proof fn law_call_keeps_wf(m: Market, call: Call)
    requires
        m.wf(),
        m.store.counter < u128::MAX,
    ensures
        m.after(call).wf(),
        m.after(call).store.counter == m.store.counter + (if call is Create {
            1int
        } else {
            0int
        }),
        forall|id: u128| #[trigger]
            m.store.prompts.contains_key(id) ==> m.after(call).store.prompts.contains_key(id),
{
    let next = m.after(call);
    match call {
        Call::List { seller, token_id, price } => {
            if m.accepts(call) {
                assert(next.store.prompts.dom() =~= m.store.prompts.dom());
            }
        },
        Call::Buy { buyer, token_id, transfers } => {
            if m.accepts(call) {
                assert(next.store.prompts.dom() =~= m.store.prompts.dom());
            }
        },
        _ => {},
    }
}

/// Calls leave a well-formed marketplace well-formed, and the counter counts the
/// creations among them.
pub proof fn law_calls_keep_wf(m: Market, calls: Seq<Call>)
    requires
        m.wf(),
        m.store.counter + calls.len() <= u128::MAX,
    ensures
        m.after_all(calls).wf(),
        m.after_all(calls).store.counter == m.store.counter + m.created_ids(calls).len(),
        m.created_ids(calls).len() <= calls.len(),
        forall|id: u128| #[trigger]
            m.store.prompts.contains_key(id) ==> m.after_all(calls).store.prompts.contains_key(
                id,
            ),
    decreases calls.len(),
{
    if calls.len() > 0 {
        law_calls_keep_wf(m, calls.drop_last());
        law_call_keeps_wf(m.after_all(calls.drop_last()), calls.last());
    }
}

/// The ids that creations return are the counter's value at the start and the numbers
/// that follow it, one by one in the order of the calls: from a new marketplace 0, 1, 2
/// and so on, whatever other calls are made in between.
pub proof fn law_ids_are_sequential(m: Market, calls: Seq<Call>)
    requires
        m.wf(),
        m.store.counter + calls.len() <= u128::MAX,
    ensures
        forall|i: int|
            0 <= i < m.created_ids(calls).len() ==> #[trigger] m.created_ids(calls)[i]
                == m.store.counter + i,
    decreases calls.len(),
{
    if calls.len() > 0 {
        law_ids_are_sequential(m, calls.drop_last());
        law_calls_keep_wf(m, calls.drop_last());
    }
}

/// Where a record is for sale after some calls and was not before them, one of the calls
/// listed it with success, and no later one of them bought it with success.
proof fn lemma_for_sale_was_listed(m: Market, calls: Seq<Call>, n: int, token_id: u128) -> (j:
    int)
    requires
        m.wf(),
        m.store.counter + calls.len() <= u128::MAX,
        !m.for_sale(token_id),
        0 <= n <= calls.len(),
        m.before(calls, n).for_sale(token_id),
    ensures
        0 <= j < n,
        calls[j].lists(token_id),
        m.before(calls, j).accepts(calls[j]),
        forall|i: int|
            j < i < n ==> !(#[trigger] calls[i].buys(token_id) && m.before(calls, i).accepts(
                calls[i],
            )),
    decreases n,
{
    if n == 0 {
        assert(calls.take(0) =~= Seq::<Call>::empty());
        0
    } else {
        let k = n - 1;
        let state = m.before(calls, k);
        let call = calls[k];
        lemma_before_next(m, calls, k);
        law_calls_keep_wf(m, calls.take(k));
        if call.lists(token_id) && state.accepts(call) {
            k
        } else {
            assert(state.for_sale(token_id) && !(call.buys(token_id) && state.accepts(call))) by {
                if state.accepts(call) {
                    match call {
                        Call::List { token_id: other, .. } => {
                            assert(state.store.prompts[other].id == other);
                        },
                        Call::Buy { token_id: other, .. } => {
                            assert(state.store.prompts[other].id == other);
                        },
                        _ => {},
                    }
                }
            }
            lemma_for_sale_was_listed(m, calls, k, token_id)
        }
    }
}

/// A purchase of a record succeeds only where an earlier call listed that record with
/// success and no purchase of it has succeeded since. The record is one that was not for
/// sale before the first call, as none is in a new marketplace.
pub proof fn law_purchase_follows_listing(m: Market, calls: Seq<Call>, k: int, token_id: u128)
    requires
        m.wf(),
        m.store.counter + calls.len() <= u128::MAX,
        !m.for_sale(token_id),
        0 <= k < calls.len(),
        calls[k].buys(token_id),
        m.before(calls, k).accepts(calls[k]),
    ensures
        exists|j: int|
            {
                &&& 0 <= j < k
                &&& (#[trigger] calls[j]).lists(token_id)
                &&& m.before(calls, j).accepts(calls[j])
                &&& forall|i: int|
                    j < i < k ==> !(#[trigger] calls[i].buys(token_id) && m.before(
                        calls,
                        i,
                    ).accepts(calls[i]))
            },
{
    let j = lemma_for_sale_was_listed(m, calls, k, token_id);
    assert(calls[j].lists(token_id));
}

/// Once a record is sold it stays sold, and no listing and no purchase of it succeeds
/// again.
pub proof fn law_sold_is_final(m: Market, calls: Seq<Call>, token_id: u128)
    requires
        m.wf(),
        m.store.counter + calls.len() <= u128::MAX,
        m.sold(token_id),
    ensures
        m.after_all(calls).sold(token_id),
        forall|k: int|
            0 <= k < calls.len() && ((#[trigger] calls[k]).lists(token_id) || calls[k].buys(
                token_id,
            )) ==> !m.before(calls, k).accepts(calls[k]),
    decreases calls.len(),
{
    if calls.len() > 0 {
        let earlier = calls.drop_last();
        let last = calls.len() - 1;
        law_sold_is_final(m, earlier, token_id);
        law_calls_keep_wf(m, earlier);
        assert(calls.take(last) == earlier);
        assert forall|k: int|
            0 <= k < calls.len() && ((#[trigger] calls[k]).lists(token_id) || calls[k].buys(
                token_id,
            )) implies !m.before(calls, k).accepts(calls[k]) by {
            if k < last {
                assert(calls.take(k) == earlier.take(k));
                assert(earlier[k] == calls[k]);
            }
        }
    }
}

/// What describes a record never changes, and no record goes away: after any calls a
/// record has the id, the image, the description, the title and the category that it had.
pub proof fn law_description_is_kept(m: Market, calls: Seq<Call>, token_id: u128)
    requires
        m.wf(),
        m.store.counter + calls.len() <= u128::MAX,
        m.store.prompts.contains_key(token_id),
    ensures
        m.after_all(calls).store.prompts.contains_key(token_id),
        ({
            let then = m.store.prompts[token_id];
            let now = m.after_all(calls).store.prompts[token_id];
            &&& now.id == then.id
            &&& now.image_url == then.image_url
            &&& now.description == then.description
            &&& now.title == then.title
            &&& now.category == then.category
        }),
    decreases calls.len(),
{
    if calls.len() > 0 {
        let earlier = calls.drop_last();
        law_description_is_kept(m, earlier, token_id);
        law_calls_keep_wf(m, earlier);
        let state = m.after_all(earlier);
        if state.accepts(calls.last()) {
            match calls.last() {
                Call::List { token_id: other, .. } => {
                    assert(state.store.prompts[other].id == other);
                },
                Call::Buy { token_id: other, .. } => {
                    assert(state.store.prompts[other].id == other);
                },
                _ => {},
            }
        }
    }
}

/// The listing of a well-formed marketplace holds every record, each at the place that
/// its id names.
pub proof fn law_listing_is_complete(m: Market)
    requires
        m.wf(),
    ensures
        m.store.listing().len() == m.store.counter,
        forall|i: int|
            0 <= i < m.store.counter ==> #[trigger] m.store.listing()[i] == m.store.prompts[i as u128],
{
    lemma_listed_below_dense(m.store, m.store.counter as nat);
}

/// A record's owner cannot buy it: while it is listed the attempt is refused as a
/// purchase from oneself, whatever the price, the fee settings and the ledgers' answer.
pub proof fn law_owner_cannot_buy(
    m: Market,
    buyer: Address,
    token_id: u128,
    transfers: Result<(), Error>,
)
    requires
        m.wf(),
        m.for_sale(token_id),
        m.store.prompts[token_id].owner@ == buyer@,
    ensures
        m.terms(buyer, token_id) == Err::<Settlement, Error>(Error::SelfPurchase),
        m.purchase_check(buyer, token_id, transfers) == Err::<(), Error>(Error::SelfPurchase),
{
}

/// What a purchase settles adds up: the fee is the stated fraction of the record's price,
/// rounded down, and the fee and the seller's amount together are the price.
pub proof fn law_settlement_adds_up(m: Market, buyer: Address, token_id: u128)
    requires
        m.terms(buyer, token_id) is Ok,
    ensures
        ({
            let terms = m.terms(buyer, token_id)->Ok_0;
            &&& terms.price == m.store.prompts[token_id].price
            &&& terms.fee_amount == fee_of(terms.price as nat, m.store.fee_percentage as nat)
            &&& terms.fee_amount + terms.seller_amount == terms.price
        }),
{
    let record = m.store.prompts[token_id];
    assert(fee_covered(record.price as nat, m.store.fee_percentage as nat));
}

/// Neither a listing nor a purchase finds a record under an id that holds none.
pub proof fn law_unknown_id_is_not_found(
    m: Market,
    who: Address,
    token_id: u128,
    transfers: Result<(), Error>,
)
    requires
        !m.store.prompts.contains_key(token_id),
    ensures
        m.listing_check(who, token_id) == Err::<(), Error>(Error::NotFound),
        m.purchase_check(who, token_id, transfers) == Err::<(), Error>(Error::NotFound),
{
}

/// The owner of a listed record that is not sold can list it again: the price is
/// replaced, everything else about the record stays, and no record is added.
pub proof fn law_relisting_replaces_price(m: Market, seller: Address, token_id: u128, price: u128)
    requires
        m.wf(),
        m.for_sale(token_id),
        m.store.prompts[token_id].owner@ == seller@,
    ensures
        m.listing_check(seller, token_id) is Ok,
        m.listed(seller, token_id, price).store.prompts[token_id] == (Prompt {
            price,
            ..m.store.prompts[token_id]
        }),
        m.listed(seller, token_id, price).store.prompts.dom() == m.store.prompts.dom(),
        m.listed(seller, token_id, price).store.counter == m.store.counter,
        forall|other: u128|
            other != token_id ==> #[trigger] m.listed(seller, token_id, price).store.prompts[other]
                == m.store.prompts[other],
{
    assert(m.listed(seller, token_id, price).store.prompts.dom() =~= m.store.prompts.dom());
}

} // verus!
