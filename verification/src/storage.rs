//! The record store: records keyed by id, the counter that hands out ids, and the fee
//! configuration.

use crate::types::{Address, Prompt};
use std::collections::HashMap;
use vstd::prelude::*;

verus! {

broadcast use vstd::std_specs::hash::group_hash_axioms;

/// What a store holds.
pub struct StorageView {
    /// The records, each under its id.
    pub prompts: Map<u128, Prompt>,
    /// The id that the next new record gets.
    pub counter: u128,
    /// The fee in basis points; 0 until it is set.
    pub fee_percentage: u128,
    /// Who receives the fee, once set.
    pub fee_wallet: Option<Address>,
    /// The payment asset, once set.
    pub xlm_address: Option<Address>,
}

impl StorageView {
    /// Every record is stored under its own id.
    pub open spec fn wf(self) -> bool {
        forall|id: u128| #[trigger] self.prompts.contains_key(id) ==> self.prompts[id].id == id
    }

    /// The record under `id`, if there is one.
    pub open spec fn get(self, id: u128) -> Option<Prompt> {
        if self.prompts.contains_key(id) {
            Some(self.prompts[id])
        } else {
            None
        }
    }

    /// The store with `draft` saved under the next id.
    pub open spec fn saved(self, draft: Prompt) -> StorageView {
        StorageView {
            prompts: self.prompts.insert(self.counter, Prompt { id: self.counter, ..draft }),
            counter: (self.counter + 1) as u128,
            ..self
        }
    }

    /// The store with `prompt` written over whatever its id held.
    pub open spec fn updated(self, prompt: Prompt) -> StorageView {
        StorageView { prompts: self.prompts.insert(prompt.id, prompt), ..self }
    }

    /// The records with an id below `bound`, in the order of their ids.
    pub open spec fn listed_below(self, bound: nat) -> Seq<Prompt>
        decreases bound,
    {
        if bound == 0 {
            Seq::empty()
        } else {
            let id = (bound - 1) as u128;
            let before = self.listed_below((bound - 1) as nat);
            if self.prompts.contains_key(id) {
                before.push(self.prompts[id])
            } else {
                before
            }
        }
    }

    /// The records that have been handed an id, in the order of their ids.
    pub open spec fn listing(self) -> Seq<Prompt> {
        self.listed_below(self.counter as nat)
    }
}

/// The listing below a bound holds exactly the stored records with a smaller id, each once,
/// in rising order of id.
pub proof fn lemma_listed_below(s: StorageView, bound: nat)
    requires
        s.wf(),
        bound <= u128::MAX + 1,
    ensures
        forall|i: int|
            0 <= i < s.listed_below(bound).len() ==> {
                let p = #[trigger] s.listed_below(bound)[i];
                p.id < bound && s.get(p.id) == Some(p)
            },
        forall|i: int, j: int|
            0 <= i < j < s.listed_below(bound).len() ==> (#[trigger] s.listed_below(bound)[i]).id
                < (#[trigger] s.listed_below(bound)[j]).id,
        forall|id: u128|
            id < bound && #[trigger] s.prompts.contains_key(id) ==> s.listed_below(
                bound,
            ).contains(s.prompts[id]),
    decreases bound,
{
    if bound > 0 {
        let id = (bound - 1) as u128;
        let before = s.listed_below((bound - 1) as nat);
        lemma_listed_below(s, (bound - 1) as nat);
        if s.prompts.contains_key(id) {
            let all = before.push(s.prompts[id]);
            assert(s.listed_below(bound) == all);
            assert forall|other: u128|
                other < bound && #[trigger] s.prompts.contains_key(other) implies all.contains(
                s.prompts[other],
            ) by {
                if other == id {
                    assert(all[before.len() as int] == s.prompts[id]);
                } else {
                    let at = choose|at: int|
                        0 <= at < before.len() && before[at] == s.prompts[other];
                    assert(all[at] == s.prompts[other]);
                }
            }
        } else {
            assert(s.listed_below(bound) == before);
        }
    }
}

/// Where every id below a bound is in use, the listing below it holds the record of each,
/// at the place that its id names.
pub proof fn lemma_listed_below_dense(s: StorageView, bound: nat)
    requires
        bound <= u128::MAX + 1,
        forall|id: u128| id < bound ==> #[trigger] s.prompts.contains_key(id),
    ensures
        s.listed_below(bound).len() == bound,
        forall|i: int| 0 <= i < bound ==> #[trigger] s.listed_below(bound)[i] == s.prompts[i as u128],
    decreases bound,
{
    if bound > 0 {
        lemma_listed_below_dense(s, (bound - 1) as nat);
        assert(s.prompts.contains_key((bound - 1) as u128));
    }
}

/// The record store.
#[derive(Debug)]
pub struct Storage {
    prompts: HashMap<u128, Prompt>,
    counter: u128,
    fee_percentage: u128,
    fee_wallet: Option<Address>,
    xlm_address: Option<Address>,
}

impl View for Storage {
    type V = StorageView;

    closed spec fn view(&self) -> StorageView {
        StorageView {
            prompts: self.prompts@,
            counter: self.counter,
            fee_percentage: self.fee_percentage,
            fee_wallet: self.fee_wallet,
            xlm_address: self.xlm_address,
        }
    }
}

impl Storage {
    /// A store with no record, the counter at 0 and nothing configured.
    pub fn new() -> (store: Storage)
        ensures
            store@.wf(),
            store@ == (StorageView {
                prompts: Map::empty(),
                counter: 0,
                fee_percentage: 0,
                fee_wallet: None,
                xlm_address: None,
            }),
    {
        Storage {
            prompts: HashMap::new(),
            counter: 0,
            fee_percentage: 0,
            fee_wallet: None,
            xlm_address: None,
        }
    }

    /// A store never holds more records than a machine can count.
    pub proof fn lemma_bounded(&self)
        ensures
            self@.prompts.dom().finite(),
            self@.prompts.len() <= usize::MAX,
    {
        assert(self.prompts.len() == self.prompts@.len());
    }

    /// Gives `draft` the next id, stores it under that id and returns the id. The counter
    /// moves on by one, so that no id is handed out twice.
    pub fn save_prompt(&mut self, draft: Prompt) -> (id: u128)
        requires
            old(self)@.wf(),
            old(self)@.counter < u128::MAX,
        ensures
            final(self)@.wf(),
            id == old(self)@.counter,
            final(self)@ == old(self)@.saved(draft),
    {
        let id = self.counter;
        let mut record = draft;
        record.id = id;
        self.prompts.insert(id, record);
        self.counter = id + 1;
        id
    }

    /// The record under `token_id`, or `None` where there is none.
    pub fn get_prompt(&self, token_id: u128) -> (found: Option<Prompt>)
        ensures
            found == self@.get(token_id),
    {
        match self.prompts.get(&token_id) {
            Some(record) => Some(record.clone()),
            None => None,
        }
    }

    /// Writes `prompt` over whatever is stored under its id. Nothing else changes, and
    /// nothing about the record is checked.
    pub fn update_prompt(&mut self, prompt: &Prompt)
        requires
            old(self)@.wf(),
        ensures
            final(self)@.wf(),
            final(self)@ == old(self)@.updated(*prompt),
    {
        self.prompts.insert(prompt.id, prompt.clone());
    }

    /// The records with an id below the counter, in the order of their ids. An id under
    /// which nothing is stored is passed over.
    pub fn get_all_prompts(&self) -> (all: Vec<Prompt>)
        ensures
            all@ == self@.listing(),
    {
        let mut all: Vec<Prompt> = Vec::new();
        let mut id: u128 = 0;
        while id < self.counter
            invariant
                id <= self.counter,
                all@ == self@.listed_below(id as nat),
            decreases self.counter - id,
        {
            match self.prompts.get(&id) {
                Some(record) => {
                    all.push(record.clone());
                },
                None => {},
            }
            id = id + 1;
        }
        all
    }

    /// The id that the next new record gets.
    pub fn get_next_token(&self) -> (next: u128)
        ensures
            next == self@.counter,
    {
        self.counter
    }

    /// Sets the fee, in basis points.
    pub fn set_fee_percentage(&mut self, fee_percentage: u128)
        ensures
            final(self)@ == (StorageView { fee_percentage, ..old(self)@ }),
    {
        self.fee_percentage = fee_percentage;
    }

    /// The fee, in basis points; 0 until it is set.
    pub fn get_fee_percentage(&self) -> (fee_percentage: u128)
        ensures
            fee_percentage == self@.fee_percentage,
    {
        self.fee_percentage
    }

    /// Sets who receives the fee.
    pub fn set_fee_wallet(&mut self, fee_wallet: &Address)
        ensures
            final(self)@ == (StorageView { fee_wallet: Some(*fee_wallet), ..old(self)@ }),
    {
        self.fee_wallet = Some(fee_wallet.clone());
    }

    /// Who receives the fee, once set.
    pub fn get_fee_wallet(&self) -> (fee_wallet: Option<Address>)
        ensures
            fee_wallet == self@.fee_wallet,
    {
        match &self.fee_wallet {
            Some(wallet) => Some(wallet.clone()),
            None => None,
        }
    }

    /// Sets the payment asset.
    pub fn set_xlm_address(&mut self, xlm_address: &Address)
        ensures
            final(self)@ == (StorageView { xlm_address: Some(*xlm_address), ..old(self)@ }),
    {
        self.xlm_address = Some(xlm_address.clone());
    }

    /// The payment asset, once set.
    pub fn get_xlm_address(&self) -> (xlm_address: Option<Address>)
        ensures
            xlm_address == self@.xlm_address,
    {
        match &self.xlm_address {
            Some(asset) => Some(asset.clone()),
            None => None,
        }
    }
}

} // verus!
