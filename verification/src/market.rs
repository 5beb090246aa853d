//! The marketplace as a state and its transitions: what each operation checks, what it
//! answers and what it leaves behind.

use crate::events::Event;
use crate::fees::{fee_covered, fee_of, seller_share};
use crate::storage::StorageView;
use crate::types::{Address, Error, Prompt};
use vstd::prelude::*;

verus! {

/// What a purchase moves: the token from seller to buyer, and the price from the buyer,
/// split between the seller and the fee wallet.
#[derive(Clone, Debug, PartialEq)]
pub struct Settlement {
    /// The token that goes from the seller to the buyer.
    pub token_id: u128,
    /// The record's owner, who is paid `seller_amount`.
    pub seller: Address,
    /// Who pays the price and receives the token.
    pub buyer: Address,
    /// Who is paid `fee_amount`.
    pub fee_wallet: Address,
    /// The record's price: the sum of the two amounts.
    pub price: u128,
    /// The fee: the stated fraction of the price, rounded down.
    pub fee_amount: u128,
    /// The rest of the price.
    pub seller_amount: u128,
}

/// The state of a marketplace.
pub struct Market {
    /// The administrator, if the marketplace has one.
    pub admin: Option<Address>,
    /// The records, the id counter and the fee configuration.
    pub store: StorageView,
    /// The notifications emitted and not yet handed out, oldest first.
    pub events: Seq<Event>,
}

impl Market {
    /// The state that a marketplace starts in: no record, the fee at five percent.
    pub open spec fn initial(admin: Address, fee_wallet: Address, xlm: Address) -> Market {
        Market {
            admin: Some(admin),
            store: StorageView {
                prompts: Map::empty(),
                counter: 0,
                fee_percentage: 500,
                fee_wallet: Some(fee_wallet),
                xlm_address: Some(xlm),
            },
            events: Seq::empty(),
        }
    }

    /// The ids in use are exactly those below the counter, every record is stored under its
    /// own id, no sold record is for sale, and the fee has somewhere to go.
    pub open spec fn wf(self) -> bool {
        &&& self.store.wf()
        &&& self.store.fee_wallet is Some
        &&& self.store.xlm_address is Some
        &&& forall|id: u128| #[trigger]
            self.store.prompts.contains_key(id) <==> id < self.store.counter
        &&& forall|id: u128| #[trigger]
            self.store.prompts.contains_key(id) ==> self.store.prompts[id].consistent()
    }

    /// Whether `caller` is the administrator.
    pub open spec fn authorized(self, caller: Address) -> bool {
        self.admin matches Some(admin) && admin@ == caller@
    }

    /// The record that a creation stores under `id`.
    pub open spec fn fresh(
        id: u128,
        creator: Address,
        image_url: String,
        description: String,
        title: String,
        category: String,
        price: u128,
    ) -> Prompt {
        Prompt {
            id,
            image_url,
            description,
            price,
            for_sale: false,
            sold: false,
            owner: creator,
            category,
            title,
        }
    }

    /// The state after `creator` created a record.
    pub open spec fn created(
        self,
        creator: Address,
        image_url: String,
        description: String,
        title: String,
        category: String,
        price: u128,
    ) -> Market {
        let id = self.store.counter;
        Market {
            store: self.store.saved(
                Self::fresh(id, creator, image_url, description, title, category, price),
            ),
            events: self.events.push(
                Event::PromptCreated { token_id: id, creator, image_url, description },
            ),
            ..self
        }
    }

    /// Whether `seller` may list the record `token_id`, and why not.
    pub open spec fn listing_check(self, seller: Address, token_id: u128) -> Result<(), Error> {
        match self.store.get(token_id) {
            None => Err(Error::NotFound),
            Some(record) => if record.owner@ != seller@ {
                Err(Error::UnAuthorized)
            } else if record.sold {
                Err(Error::AlreadySold)
            } else {
                Ok(())
            },
        }
    }

    /// The state after `seller` listed the record `token_id` at `price`.
    pub open spec fn listed(self, seller: Address, token_id: u128, price: u128) -> Market {
        Market {
            store: self.store.updated(self.store.prompts[token_id].listed_at(price)),
            events: self.events.push(Event::PromptListed { token_id, seller, price }),
            ..self
        }
    }

    /// What `buyer` would have to settle for the record `token_id`, or why the purchase is
    /// refused. The checks come in this order: the record exists, it is for sale, it is not
    /// sold, the buyer is not its owner, the price covers the fee.
    pub open spec fn terms(self, buyer: Address, token_id: u128) -> Result<Settlement, Error> {
        match self.store.get(token_id) {
            None => Err(Error::NotFound),
            Some(record) => if !record.for_sale {
                Err(Error::NotForSale)
            } else if record.sold {
                Err(Error::AlreadySold)
            } else if record.owner@ == buyer@ {
                Err(Error::SelfPurchase)
            } else if !fee_covered(record.price as nat, self.store.fee_percentage as nat) {
                Err(Error::InsufficientFunds)
            } else {
                Ok(
                    Settlement {
                        token_id,
                        seller: record.owner,
                        buyer,
                        fee_wallet: self.store.fee_wallet->0,
                        price: record.price,
                        fee_amount: fee_of(
                            record.price as nat,
                            self.store.fee_percentage as nat,
                        ) as u128,
                        seller_amount: seller_share(
                            record.price as nat,
                            self.store.fee_percentage as nat,
                        ) as u128,
                    },
                )
            },
        }
    }

    /// What a purchase answers, given what the ledgers answered to its transfers: a
    /// refusal of the purchase itself comes first, then theirs.
    pub open spec fn purchase_check(
        self,
        buyer: Address,
        token_id: u128,
        transfers: Result<(), Error>,
    ) -> Result<(), Error> {
        match self.terms(buyer, token_id) {
            Err(refusal) => Err(refusal),
            Ok(_) => transfers,
        }
    }

    /// The state after `buyer` bought the record `token_id`.
    pub open spec fn bought(self, buyer: Address, token_id: u128) -> Market {
        let record = self.store.prompts[token_id];
        Market {
            store: self.store.updated(record.sold_to(buyer)),
            events: self.events.push(
                Event::PromptSold { token_id, seller: record.owner, buyer, price: record.price },
            ),
            ..self
        }
    }

    /// The state after the fee was set to `new_fee_percentage` basis points.
    pub open spec fn with_fee_percentage(self, new_fee_percentage: u128) -> Market {
        Market {
            store: StorageView { fee_percentage: new_fee_percentage, ..self.store },
            events: self.events.push(Event::FeeUpdated { new_fee_percentage }),
            ..self
        }
    }

    /// The state after the fee was directed to `new_fee_wallet`.
    pub open spec fn with_fee_wallet(self, new_fee_wallet: Address) -> Market {
        Market {
            store: StorageView { fee_wallet: Some(new_fee_wallet), ..self.store },
            events: self.events.push(Event::FeeWalletUpdated { new_fee_wallet }),
            ..self
        }
    }
}

/// One request to a marketplace.
pub enum Call {
    /// `create_prompt`
    Create {
        creator: Address,
        image_url: String,
        description: String,
        title: String,
        category: String,
        price: u128,
    },
    /// `list_prompt_for_sale`
    List { seller: Address, token_id: u128, price: u128 },
    /// `buy_prompt`, with what the ledgers answered to its transfers
    Buy { buyer: Address, token_id: u128, transfers: Result<(), Error> },
    /// `set_fee_percentage`
    SetFeePercentage { caller: Address, new_fee_percentage: u128 },
    /// `set_fee_wallet`
    SetFeeWallet { caller: Address, new_fee_wallet: Address },
}

impl Call {
    /// Whether this is a listing of the record `token_id`.
    pub open spec fn lists(self, token_id: u128) -> bool {
        self matches Call::List { token_id: listed, .. } && listed == token_id
    }

    /// Whether this is a purchase of the record `token_id`.
    pub open spec fn buys(self, token_id: u128) -> bool {
        self matches Call::Buy { token_id: bought, .. } && bought == token_id
    }
}

impl Market {
    /// Whether the record `token_id` exists and is for sale.
    pub open spec fn for_sale(self, token_id: u128) -> bool {
        self.store.get(token_id) matches Some(record) && record.for_sale
    }

    /// Whether the record `token_id` exists and is sold.
    pub open spec fn sold(self, token_id: u128) -> bool {
        self.store.get(token_id) matches Some(record) && record.sold
    }

    /// Whether `call` succeeds in this state.
    pub open spec fn accepts(self, call: Call) -> bool {
        match call {
            Call::Create { .. } => true,
            Call::List { seller, token_id, .. } => self.listing_check(seller, token_id) is Ok,
            Call::Buy { buyer, token_id, transfers } => self.purchase_check(
                buyer,
                token_id,
                transfers,
            ) is Ok,
            Call::SetFeePercentage { caller, .. } => self.authorized(caller),
            Call::SetFeeWallet { caller, .. } => self.authorized(caller),
        }
    }

    /// The state that `call` leaves: this one where the call is refused.
    pub open spec fn after(self, call: Call) -> Market {
        if !self.accepts(call) {
            self
        } else {
            match call {
                Call::Create { creator, image_url, description, title, category, price } => {
                    self.created(creator, image_url, description, title, category, price)
                },
                Call::List { seller, token_id, price } => self.listed(seller, token_id, price),
                Call::Buy { buyer, token_id, .. } => self.bought(buyer, token_id),
                Call::SetFeePercentage { new_fee_percentage, .. } => self.with_fee_percentage(
                    new_fee_percentage,
                ),
                Call::SetFeeWallet { new_fee_wallet, .. } => self.with_fee_wallet(new_fee_wallet),
            }
        }
    }

    /// The state that `calls` leave, made one after the other.
    pub open spec fn after_all(self, calls: Seq<Call>) -> Market
        decreases calls.len(),
    {
        if calls.len() == 0 {
            self
        } else {
            self.after_all(calls.drop_last()).after(calls.last())
        }
    }

    /// The state in which call number `k` of `calls` is made.
    pub open spec fn before(self, calls: Seq<Call>, k: int) -> Market {
        self.after_all(calls.take(k))
    }

    /// The ids that the creations among `calls` return, in the order of the calls.
    pub open spec fn created_ids(self, calls: Seq<Call>) -> Seq<u128>
        decreases calls.len(),
    {
        if calls.len() == 0 {
            Seq::empty()
        } else {
            let earlier = self.created_ids(calls.drop_last());
            if calls.last() is Create {
                earlier.push(self.after_all(calls.drop_last()).store.counter)
            } else {
                earlier
            }
        }
    }
}

/// The ids below `bound`.
pub open spec fn ids_below(bound: u128) -> Set<u128> {
    Set::new(|id: u128| id < bound)
}

/// There are `bound` ids below `bound`.
pub proof fn lemma_ids_below(bound: u128)
    ensures
        ids_below(bound).finite(),
        ids_below(bound).len() == bound,
    decreases bound,
{
    if bound == 0 {
        assert(ids_below(bound) =~= Set::<u128>::empty());
    } else {
        let fewer = (bound - 1) as u128;
        lemma_ids_below(fewer);
        assert(ids_below(bound) =~= ids_below(fewer).insert(fewer));
    }
}

/// A well-formed marketplace holds as many records as its counter says.
pub proof fn lemma_record_count(m: Market)
    requires
        m.wf(),
    ensures
        m.store.prompts.dom().finite(),
        m.store.prompts.len() == m.store.counter,
{
    lemma_ids_below(m.store.counter);
    assert(m.store.prompts.dom() =~= ids_below(m.store.counter));
}

} // verus!
