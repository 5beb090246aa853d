//! The settlement engine: creation, listing and purchase over the record store, and the
//! administrator's fee settings.

use crate::events::{Event, Events};
use crate::fees::{split_price, DEFAULT_FEE_PERCENTAGE};
use crate::market::{lemma_record_count, Call, Market, Settlement};
use crate::storage::Storage;
use crate::types::{Address, Error, Prompt};
use vstd::prelude::*;

verus! {

/// A marketplace: its administrator, its records and fee settings, and the notifications
/// that await an observer.
#[derive(Debug)]
pub struct PromptHashContract {
    admin: Option<Address>,
    storage: Storage,
    events: Events,
}

impl View for PromptHashContract {
    type V = Market;

    closed spec fn view(&self) -> Market {
        Market { admin: self.admin, store: self.storage@, events: self.events@ }
    }
}

/// The operations of a marketplace, as its host offers them to callers.
pub trait PromptHashTrait: Sized + View<V = Market> {
    /// A marketplace with no record, administered by `admin`, whose fee of five percent
    /// goes to `fee_wallet` and whose payments are made in the asset `xlm`.
    fn __constructor(admin: Address, fee_wallet: Address, xlm: Address) -> (made: Result<
        Self,
        Error,
    >)
        ensures
            made matches Ok(contract) && contract@ == Market::initial(admin, fee_wallet, xlm)
                && contract@.wf(),
    ;

    /// Creates a record owned by `creator`, neither listed nor sold, under the next id, and
    /// returns that id.
    fn create_prompt(
        &mut self,
        creator: Address,
        image_url: String,
        description: String,
        title: String,
        category: String,
        price: u128,
    ) -> (created: Result<u128, Error>)
        requires
            old(self)@.wf(),
        ensures
            final(self)@.wf(),
            created == Ok::<u128, Error>(old(self)@.store.counter),
            final(self)@ == old(self)@.created(
                creator,
                image_url,
                description,
                title,
                category,
                price,
            ),
            final(self)@ == old(self)@.after(
                Call::Create { creator, image_url, description, title, category, price },
            ),
    ;

    /// The id that the next created record gets.
    fn get_next_token(&self) -> (next: Result<u128, Error>)
        ensures
            next == Ok::<u128, Error>(self@.store.counter),
    ;

    /// Lists the record `token_id` for sale at `price`, or changes the price of a listed
    /// one. Only the record's owner may, and only while it is not sold.
    fn list_prompt_for_sale(&mut self, seller: Address, token_id: u128, price: u128) -> (listed:
        Result<(), Error>)
        requires
            old(self)@.wf(),
        ensures
            final(self)@.wf(),
            listed == old(self)@.listing_check(seller, token_id),
            listed is Ok ==> final(self)@ == old(self)@.listed(seller, token_id, price),
            listed is Err ==> final(self)@ == old(self)@,
            listed is Ok <==> old(self)@.accepts(Call::List { seller, token_id, price }),
            final(self)@ == old(self)@.after(Call::List { seller, token_id, price }),
    ;

    /// Sells the record `token_id` to `buyer`, where `transfers` is what the ledgers
    /// answered to the transfers of `purchase_terms`. The record changes hands only where
    /// the purchase is in order and the transfers were made; otherwise nothing changes.
    fn buy_prompt(&mut self, buyer: Address, token_id: u128, transfers: Result<(), Error>) -> (bought:
        Result<(), Error>)
        requires
            old(self)@.wf(),
        ensures
            final(self)@.wf(),
            bought == old(self)@.purchase_check(buyer, token_id, transfers),
            bought is Ok ==> final(self)@ == old(self)@.bought(buyer, token_id),
            bought is Err ==> final(self)@ == old(self)@,
            bought is Ok <==> old(self)@.accepts(Call::Buy { buyer, token_id, transfers }),
            final(self)@ == old(self)@.after(Call::Buy { buyer, token_id, transfers }),
    ;

    /// Every record, in the order of the ids.
    fn get_all_prompts(&self) -> (all: Result<Vec<Prompt>, Error>)
        ensures
            all matches Ok(prompts) && prompts@ == self@.store.listing(),
    ;

    /// Sets the fee to `new_fee_percentage` basis points, for every purchase from now on.
    /// Only the administrator may.
    fn set_fee_percentage(&mut self, caller: &Address, new_fee_percentage: u128) -> (set:
        Result<(), Error>)
        requires
            old(self)@.wf(),
        ensures
            final(self)@.wf(),
            set is Ok <==> old(self)@.authorized(*caller),
            set is Ok ==> final(self)@ == old(self)@.with_fee_percentage(new_fee_percentage),
            set is Err ==> set == Err::<(), Error>(Error::UnAuthorized) && final(self)@ == old(
                self,
            )@,
            final(self)@ == old(self)@.after(
                Call::SetFeePercentage { caller: *caller, new_fee_percentage },
            ),
    ;

    /// Directs the fee to `new_fee_wallet`, for every purchase from now on. Only the
    /// administrator may.
    fn set_fee_wallet(&mut self, caller: &Address, new_fee_wallet: Address) -> (set: Result<
        (),
        Error,
    >)
        requires
            old(self)@.wf(),
        ensures
            final(self)@.wf(),
            set is Ok <==> old(self)@.authorized(*caller),
            set is Ok ==> final(self)@ == old(self)@.with_fee_wallet(new_fee_wallet),
            set is Err ==> set == Err::<(), Error>(Error::UnAuthorized) && final(self)@ == old(
                self,
            )@,
            final(self)@ == old(self)@.after(Call::SetFeeWallet { caller: *caller, new_fee_wallet }),
    ;
}

impl PromptHashTrait for PromptHashContract {
    fn __constructor(admin: Address, fee_wallet: Address, xlm: Address) -> (made: Result<
        PromptHashContract,
        Error,
    >) {
        let mut storage = Storage::new();
        storage.set_fee_wallet(&fee_wallet);
        storage.set_fee_percentage(DEFAULT_FEE_PERCENTAGE);
        storage.set_xlm_address(&xlm);
        Ok(PromptHashContract { admin: Some(admin), storage, events: Events::new() })
    }

    fn create_prompt(
        &mut self,
        creator: Address,
        image_url: String,
        description: String,
        title: String,
        category: String,
        price: u128,
    ) -> (created: Result<u128, Error>) {
        proof {
            lemma_record_count(self@);
            self.storage.lemma_bounded();
        }
        let draft = Prompt {
            id: 0,
            image_url: image_url.clone(),
            description: description.clone(),
            price,
            for_sale: false,
            sold: false,
            owner: creator.clone(),
            category,
            title,
        };
        let id = self.storage.save_prompt(draft);
        self.events.emit_prompt_created(id, creator, image_url, description);
        Ok(id)
    }

    fn get_next_token(&self) -> (next: Result<u128, Error>) {
        Ok(self.storage.get_next_token())
    }

    fn list_prompt_for_sale(&mut self, seller: Address, token_id: u128, price: u128) -> (listed:
        Result<(), Error>) {
        let mut record = match self.storage.get_prompt(token_id) {
            Some(record) => record,
            None => {
                return Err(Error::NotFound);
            },
        };
        if record.owner != seller {
            return Err(Error::UnAuthorized);
        }
        if record.sold {
            return Err(Error::AlreadySold);
        }
        record.for_sale = true;
        record.price = price;
        let ghost before = self@;
        self.storage.update_prompt(&record);
        self.events.emit_prompt_listed(token_id, seller, price);
        proof {
            assert(self@.store.prompts.dom() =~= before.store.prompts.dom());
        }
        Ok(())
    }

    fn buy_prompt(&mut self, buyer: Address, token_id: u128, transfers: Result<(), Error>) -> (bought:
        Result<(), Error>) {
        let terms = match self.purchase_terms(&buyer, token_id) {
            Ok(terms) => terms,
            Err(refusal) => {
                return Err(refusal);
            },
        };
        if transfers.is_err() {
            return transfers;
        }
        let mut record = self.storage.get_prompt(token_id).unwrap();
        record.owner = buyer.clone();
        record.sold = true;
        record.for_sale = false;
        let ghost before = self@;
        self.storage.update_prompt(&record);
        self.events.emit_prompt_sold(token_id, terms.seller, buyer, terms.price);
        proof {
            assert(self@.store.prompts.dom() =~= before.store.prompts.dom());
        }
        transfers
    }

    fn get_all_prompts(&self) -> (all: Result<Vec<Prompt>, Error>) {
        Ok(self.storage.get_all_prompts())
    }

    fn set_fee_percentage(&mut self, caller: &Address, new_fee_percentage: u128) -> (set:
        Result<(), Error>) {
        match self.authorize(caller) {
            Ok(()) => {},
            Err(refusal) => {
                return Err(refusal);
            },
        }
        self.storage.set_fee_percentage(new_fee_percentage);
        self.events.emit_fee_updated(new_fee_percentage);
        Ok(())
    }

    fn set_fee_wallet(&mut self, caller: &Address, new_fee_wallet: Address) -> (set: Result<
        (),
        Error,
    >) {
        match self.authorize(caller) {
            Ok(()) => {},
            Err(refusal) => {
                return Err(refusal);
            },
        }
        self.storage.set_fee_wallet(&new_fee_wallet);
        self.events.emit_fee_wallet_updated(new_fee_wallet);
        Ok(())
    }
}

impl PromptHashContract {
    /// The marketplace that holds the given settings and the given records, where
    /// `prompts` lists them in the order of their ids, as `get_all_prompts` does. There is
    /// none where a record's id is not its place in the list, or a sold record is for sale.
    pub fn restore(
        admin: Option<Address>,
        fee_wallet: Address,
        xlm: Address,
        fee_percentage: u128,
        prompts: Vec<Prompt>,
    ) -> (restored: Option<PromptHashContract>)
        ensures
            restored is Some <==> forall|i: int|
                0 <= i < prompts@.len() ==> (#[trigger] prompts@[i]).id == i
                    && prompts@[i].consistent(),
            restored matches Some(contract) ==> {
                &&& contract@.wf()
                &&& contract@.admin == admin
                &&& contract@.events == Seq::<Event>::empty()
                &&& contract@.store.fee_percentage == fee_percentage
                &&& contract@.store.fee_wallet == Some(fee_wallet)
                &&& contract@.store.xlm_address == Some(xlm)
                &&& contract@.store.counter == prompts@.len()
                &&& contract@.store.listing() == prompts@
                &&& forall|i: int|
                    0 <= i < prompts@.len() ==> contract@.store.get(i as u128) == Some(
                        #[trigger] prompts@[i],
                    )
            },
    {
        let mut storage = Storage::new();
        storage.set_fee_wallet(&fee_wallet);
        storage.set_fee_percentage(fee_percentage);
        storage.set_xlm_address(&xlm);
        let mut at: usize = 0;
        while at < prompts.len()
            invariant
                at <= prompts@.len(),
                storage@.wf(),
                storage@.counter == at,
                storage@.fee_percentage == fee_percentage,
                storage@.fee_wallet == Some(fee_wallet),
                storage@.xlm_address == Some(xlm),
                forall|id: u128| #[trigger] storage@.prompts.contains_key(id) <==> id < at,
                forall|id: u128|
                    id < at ==> #[trigger] storage@.prompts[id] == prompts@[id as int]
                        && prompts@[id as int].id == id && prompts@[id as int].consistent(),
                storage@.listing() == prompts@.take(at as int),
            decreases prompts@.len() - at,
        {
            let record = &prompts[at];
            if record.id != at as u128 || (record.sold && record.for_sale) {
                return None;
            }
            let ghost before = storage@;
            storage.save_prompt(record.clone());
            proof {
                assert(storage@.prompts[at as u128] == prompts@[at as int]);
                lemma_listing_grows(before, prompts@[at as int]);
                assert(prompts@.take(at + 1) == prompts@.take(at as int).push(prompts@[at as int]));
            }
            at = at + 1;
        }
        proof {
            assert(prompts@.take(at as int) == prompts@);
            assert forall|i: int| 0 <= i < prompts@.len() implies storage@.get(i as u128) == Some(
                #[trigger] prompts@[i],
            ) && prompts@[i].id == i && prompts@[i].consistent() by {
                assert(storage@.prompts[i as u128] == prompts@[i as u128 as int]);
            }
        }
        Some(PromptHashContract { admin, storage, events: Events::new() })
    }

    /// Passes the administrator and refuses everyone else.
    pub fn authorize(&self, caller: &Address) -> (gate: Result<(), Error>)
        ensures
            gate == if self@.authorized(*caller) {
                Ok::<(), Error>(())
            } else {
                Err(Error::UnAuthorized)
            },
    {
        match &self.admin {
            Some(admin) => if admin == caller {
                Ok(())
            } else {
                Err(Error::UnAuthorized)
            },
            None => Err(Error::UnAuthorized),
        }
    }

    /// What `buyer` has to settle to buy the record `token_id`: who is paid how much, and
    /// which token changes hands. Nothing changes.
    pub fn purchase_terms(&self, buyer: &Address, token_id: u128) -> (terms: Result<
        Settlement,
        Error,
    >)
        requires
            self@.wf(),
        ensures
            terms == self@.terms(*buyer, token_id),
    {
        let record = match self.storage.get_prompt(token_id) {
            Some(record) => record,
            None => {
                return Err(Error::NotFound);
            },
        };
        if !record.for_sale {
            return Err(Error::NotForSale);
        }
        if record.sold {
            return Err(Error::AlreadySold);
        }
        if record.owner == *buyer {
            return Err(Error::SelfPurchase);
        }
        let (fee_amount, seller_amount) = match split_price(
            record.price,
            self.storage.get_fee_percentage(),
        ) {
            Some(split) => split,
            None => {
                return Err(Error::InsufficientFunds);
            },
        };
        let fee_wallet = self.storage.get_fee_wallet().unwrap();
        Ok(
            Settlement {
                token_id,
                seller: record.owner,
                buyer: buyer.clone(),
                fee_wallet,
                price: record.price,
                fee_amount,
                seller_amount,
            },
        )
    }

    /// The administrator, if there is one.
    pub fn get_admin(&self) -> (admin: Option<Address>)
        ensures
            admin == self@.admin,
    {
        match &self.admin {
            Some(admin) => Some(admin.clone()),
            None => None,
        }
    }

    /// The fee, in basis points.
    pub fn get_fee_percentage(&self) -> (fee_percentage: u128)
        ensures
            fee_percentage == self@.store.fee_percentage,
    {
        self.storage.get_fee_percentage()
    }

    /// Who receives the fee.
    pub fn get_fee_wallet(&self) -> (fee_wallet: Option<Address>)
        ensures
            fee_wallet == self@.store.fee_wallet,
    {
        self.storage.get_fee_wallet()
    }

    /// The payment asset.
    pub fn get_xlm_address(&self) -> (xlm_address: Option<Address>)
        ensures
            xlm_address == self@.store.xlm_address,
    {
        self.storage.get_xlm_address()
    }

    /// The record under `token_id`, if there is one.
    pub fn get_prompt(&self, token_id: u128) -> (found: Option<Prompt>)
        ensures
            found == self@.store.get(token_id),
    {
        self.storage.get_prompt(token_id)
    }

    /// Hands out the notifications of the operations since the last call, oldest first.
    pub fn take_events(&mut self) -> (emitted: Vec<Event>)
        ensures
            emitted@ == old(self)@.events,
            final(self)@ == (Market { events: Seq::empty(), ..old(self)@ }),
    {
        self.events.take()
    }
}

/// Saving a record adds it at the end of the listing, where every id below the counter
/// is in use or not.
proof fn lemma_listing_grows(s: crate::storage::StorageView, draft: Prompt)
    requires
        s.counter < u128::MAX,
        !s.prompts.contains_key(s.counter),
    ensures
        s.saved(draft).listing() == s.listing().push(Prompt { id: s.counter, ..draft }),
{
    let after = s.saved(draft);
    lemma_listing_same_below(s, after, s.counter as nat);
    assert(after.listing() == after.listed_below(s.counter as nat).push(
        after.prompts[s.counter],
    ));
}

/// Two stores that agree on the ids below `bound` list the same records below it.
proof fn lemma_listing_same_below(
    a: crate::storage::StorageView,
    b: crate::storage::StorageView,
    bound: nat,
)
    requires
        bound <= u128::MAX,
        forall|id: u128|
            #![trigger a.prompts.contains_key(id)]
            #![trigger b.prompts.contains_key(id)]
            id < bound ==> a.prompts.contains_key(id) == b.prompts.contains_key(id) && (
            a.prompts.contains_key(id) ==> a.prompts[id] == b.prompts[id]),
    ensures
        a.listed_below(bound) == b.listed_below(bound),
    decreases bound,
{
    if bound > 0 {
        lemma_listing_same_below(a, b, (bound - 1) as nat);
    }
}

} // verus!
