//! The marketplace's data: principals, listing records and the error kinds.

use vstd::prelude::*;

verus! {

/// A principal: an account or a contract, known by the text of its key.
#[derive(Debug, Hash)]
pub struct Address {
    key: String,
}

impl View for Address {
    type V = Seq<char>;

    closed spec fn view(&self) -> Seq<char> {
        self.key@
    }
}

impl Address {
    /// The principal whose key is `key`.
    pub fn new(key: &str) -> (a: Address)
        ensures
            a@ == key@,
    {
        Address { key: key.to_owned() }
    }

    /// The key's text.
    pub fn as_str(&self) -> (s: &str)
        ensures
            s@ == self@,
    {
        self.key.as_str()
    }
}

impl Clone for Address {
    fn clone(&self) -> (a: Address)
        ensures
            a == *self,
    {
        Address { key: self.key.clone() }
    }
}

impl PartialEq for Address {
    fn eq(&self, other: &Address) -> (same: bool) {
        self.key == other.key
    }
}

impl Eq for Address {}

impl vstd::std_specs::cmp::PartialEqSpecImpl for Address {
    open spec fn obeys_eq_spec() -> bool {
        true
    }

    open spec fn eq_spec(&self, other: &Address) -> bool {
        self@ == other@
    }
}

/// Why an operation was refused.
#[derive(Copy, Clone, Debug, PartialEq, Eq, Structural)]
pub enum Error {
    /// The caller is not the principal that the operation is reserved for.
    UnAuthorized,
    /// No record is stored under the given id.
    NotFound,
    /// The record has been sold; its state is final.
    AlreadySold,
    /// The record is not listed for sale.
    NotForSale,
    /// The buyer is the record's own owner.
    SelfPurchase,
    /// The payment cannot be covered.
    InsufficientFunds,
    /// The payment or the token transfer has not been approved.
    InsufficientApproval,
}

/// One listable item: what is sold, at what price, who holds it and how far its sale has come.
#[derive(Debug, PartialEq)]
pub struct Prompt {
    /// The record's number, given once, at creation.
    pub id: u128,
    /// Where the item's image is found.
    pub image_url: String,
    /// What the item is, in words.
    pub description: String,
    /// The asking price, in the payment asset's smallest unit.
    pub price: u128,
    /// Whether the record can be bought.
    pub for_sale: bool,
    /// Whether the record has been bought; once it has, this stays.
    pub sold: bool,
    /// Who the marketplace takes for the holder: the creator, then the buyer.
    pub owner: Address,
    /// The item's category.
    pub category: String,
    /// The item's title.
    pub title: String,
}

impl Prompt {
    /// A sold record is never for sale.
    pub open spec fn consistent(&self) -> bool {
        self.sold ==> !self.for_sale
    }

    /// The record as a listing at `price` leaves it.
    pub open spec fn listed_at(self, price: u128) -> Prompt {
        Prompt { for_sale: true, price, ..self }
    }

    /// The record as its sale to `buyer` leaves it.
    pub open spec fn sold_to(self, buyer: Address) -> Prompt {
        Prompt { owner: buyer, sold: true, for_sale: false, ..self }
    }
}

impl Clone for Prompt {
    fn clone(&self) -> (copy: Prompt)
        ensures
            copy == *self,
    {
        Prompt {
            id: self.id,
            image_url: self.image_url.clone(),
            description: self.description.clone(),
            price: self.price,
            for_sale: self.for_sale,
            sold: self.sold,
            owner: self.owner.clone(),
            category: self.category.clone(),
            title: self.title.clone(),
        }
    }
}

} // verus!
