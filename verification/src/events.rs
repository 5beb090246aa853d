//! The notifications that successful operations leave for observers.

use crate::types::Address;
use vstd::prelude::*;

verus! {

/// One notification.
#[derive(Clone, Debug, PartialEq)]
pub enum Event {
    /// A record was created.
    PromptCreated { token_id: u128, creator: Address, image_url: String, description: String },
    /// A record was listed for sale, or its price was changed.
    PromptListed { token_id: u128, seller: Address, price: u128 },
    /// A record was sold.
    PromptSold { token_id: u128, seller: Address, buyer: Address, price: u128 },
    /// The fee was changed.
    FeeUpdated { new_fee_percentage: u128 },
    /// The fee goes to another wallet from now on.
    FeeWalletUpdated { new_fee_wallet: Address },
}

/// The notifications emitted so far, oldest first.
#[derive(Debug)]
pub struct Events {
    log: Vec<Event>,
}

impl View for Events {
    type V = Seq<Event>;

    closed spec fn view(&self) -> Seq<Event> {
        self.log@
    }
}

impl Events {
    /// A log with nothing in it.
    pub fn new() -> (events: Events)
        ensures
            events@ == Seq::<Event>::empty(),
    {
        Events { log: Vec::new() }
    }

    /// Records that `creator` created the record `token_id`.
    pub fn emit_prompt_created(
        &mut self,
        token_id: u128,
        creator: Address,
        image_url: String,
        description: String,
    )
        ensures
            final(self)@ == old(self)@.push(
                Event::PromptCreated { token_id, creator, image_url, description },
            ),
    {
        self.log.push(Event::PromptCreated { token_id, creator, image_url, description });
    }

    /// Records that `seller` listed the record `token_id` at `price`.
    pub fn emit_prompt_listed(&mut self, token_id: u128, seller: Address, price: u128)
        ensures
            final(self)@ == old(self)@.push(Event::PromptListed { token_id, seller, price }),
    {
        self.log.push(Event::PromptListed { token_id, seller, price });
    }

    /// Records that `seller` sold the record `token_id` to `buyer` at `price`.
    pub fn emit_prompt_sold(
        &mut self,
        token_id: u128,
        seller: Address,
        buyer: Address,
        price: u128,
    )
        ensures
            final(self)@ == old(self)@.push(Event::PromptSold { token_id, seller, buyer, price }),
    {
        self.log.push(Event::PromptSold { token_id, seller, buyer, price });
    }

    /// Records that the fee is now `new_fee_percentage` basis points.
    pub fn emit_fee_updated(&mut self, new_fee_percentage: u128)
        ensures
            final(self)@ == old(self)@.push(Event::FeeUpdated { new_fee_percentage }),
    {
        self.log.push(Event::FeeUpdated { new_fee_percentage });
    }

    /// Records that the fee now goes to `new_fee_wallet`.
    pub fn emit_fee_wallet_updated(&mut self, new_fee_wallet: Address)
        ensures
            final(self)@ == old(self)@.push(Event::FeeWalletUpdated { new_fee_wallet }),
    {
        self.log.push(Event::FeeWalletUpdated { new_fee_wallet });
    }

    /// Hands out the notifications recorded so far, oldest first, and starts the log anew.
    pub fn take(&mut self) -> (emitted: Vec<Event>)
        ensures
            emitted@ == old(self)@,
            final(self)@ == Seq::<Event>::empty(),
    {
        let mut emitted: Vec<Event> = Vec::new();
        std::mem::swap(&mut self.log, &mut emitted);
        emitted
    }
}

} // verus!
