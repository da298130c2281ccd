use vstd::prelude::*;
use crate::inventory::{Inventory, count_named};
use crate::item::ItemView;

verus! {

/// One required item: at least `quantity` carried items named `item_name`.
#[derive(Debug)]
pub struct ItemRequirement {
    pub item_name: String,
    pub quantity: u32,
}

/// An extraction objective; `completed` is recomputed on each validation.
#[derive(Debug)]
pub struct Contract {
    pub id: String,
    pub description: String,
    pub requirements: Vec<ItemRequirement>,
    pub completed: bool,
}

/// What the briefing and extraction screens show of a contract.
#[derive(Debug)]
pub struct ContractStatus {
    pub description: String,
    pub completed: bool,
}

/// Whether the inventory meets every requirement.
pub open spec fn requirements_met(reqs: Seq<ItemRequirement>, inventory: Seq<ItemView>) -> bool {
    forall|k: int|
        0 <= k < reqs.len() ==> count_named(inventory, (#[trigger] reqs[k]).item_name@)
            >= reqs[k].quantity
}

/// Two contract lists that differ at most in their `completed` flags.
pub open spec fn same_terms(a: Seq<Contract>, b: Seq<Contract>) -> bool {
    &&& a.len() == b.len()
    &&& forall|i: int|
        0 <= i < a.len() ==> (#[trigger] a[i]).id == b[i].id && a[i].description == b[i].description
            && a[i].requirements == b[i].requirements
}

/// The session's contracts, in a fixed order.
#[derive(Debug)]
pub struct ContractSystem {
    pub active_contracts: Vec<Contract>,
}

impl Contract {
    /// Checks every requirement against the inventory.
    pub fn is_met_by(&self, inventory: &Inventory) -> (r: bool)
        ensures
            r == requirements_met(self.requirements@, inventory@),
    {
        let mut k: usize = 0;
        while k < self.requirements.len()
            invariant
                k <= self.requirements@.len(),
                forall|j: int|
                    0 <= j < k ==> count_named(inventory@, (#[trigger] self.requirements@[j]).item_name@)
                        >= self.requirements@[j].quantity,
            decreases self.requirements@.len() - k,
        {
            let req = &self.requirements[k];
            let n = inventory.count_named(&req.item_name);
            if (n as u64) < (req.quantity as u64) {
                return false;
            }
            k += 1;
        }
        true
    }
}

impl ContractSystem {
    /// Recomputes each contract's `completed` flag from the inventory and reports
    /// every contract's status, in contract order.
    pub fn validate_contracts(&mut self, inventory: &Inventory) -> (r: Vec<ContractStatus>)
        ensures
            same_terms(old(self).active_contracts@, final(self).active_contracts@),
            r@.len() == old(self).active_contracts@.len(),
            forall|i: int|
                0 <= i < r@.len() ==> {
                    &&& (#[trigger] final(self).active_contracts@[i]).completed == requirements_met(
                        old(self).active_contracts@[i].requirements@,
                        inventory@,
                    )
                    &&& r@[i].completed == final(self).active_contracts@[i].completed
                    &&& r@[i].description@ == old(self).active_contracts@[i].description@
                },
    {
        let mut r: Vec<ContractStatus> = Vec::with_capacity(self.active_contracts.len());
        let mut i: usize = 0;
        while i < self.active_contracts.len()
            invariant
                i <= self.active_contracts@.len(),
                r@.len() == i,
                same_terms(old(self).active_contracts@, self.active_contracts@),
                forall|j: int|
                    i <= j < self.active_contracts@.len() ==> #[trigger] self.active_contracts@[j]
                        == old(self).active_contracts@[j],
                forall|j: int|
                    0 <= j < i ==> {
                        &&& (#[trigger] self.active_contracts@[j]).completed == requirements_met(
                            old(self).active_contracts@[j].requirements@,
                            inventory@,
                        )
                        &&& r@[j].completed == self.active_contracts@[j].completed
                        &&& r@[j].description@ == old(self).active_contracts@[j].description@
                    },
            decreases self.active_contracts@.len() - i,
        {
            let met = self.active_contracts[i].is_met_by(inventory);
            let description = self.active_contracts[i].description.clone();
            self.active_contracts[i].completed = met;
            r.push(ContractStatus { description, completed: met });
            i += 1;
        }
        r
    }

    /// Marks every contract incomplete, leaving its terms as they are.
    pub fn reset(&mut self)
        ensures
            same_terms(old(self).active_contracts@, final(self).active_contracts@),
            forall|i: int|
                0 <= i < final(self).active_contracts@.len()
                    ==> !(#[trigger] final(self).active_contracts@[i]).completed,
    {
        let mut i: usize = 0;
        while i < self.active_contracts.len()
            invariant
                i <= self.active_contracts@.len(),
                same_terms(old(self).active_contracts@, self.active_contracts@),
                forall|j: int| 0 <= j < i ==> !(#[trigger] self.active_contracts@[j]).completed,
            decreases self.active_contracts@.len() - i,
        {
            self.active_contracts[i].completed = false;
            i += 1;
        }
    }
}

impl Default for ContractSystem {
    /// The standing contract: bring back one Fully Empty.
    fn default() -> (r: ContractSystem)
        ensures
            r.active_contracts@.len() == 1,
            r.active_contracts@[0].id@ == "contract_001"@,
            r.active_contracts@[0].requirements@.len() == 1,
            r.active_contracts@[0].requirements@[0].item_name@ == "Fully Empty"@,
            r.active_contracts@[0].requirements@[0].quantity == 1,
            !r.active_contracts@[0].completed,
    {
        let requirement = ItemRequirement { item_name: "Fully Empty".to_owned(), quantity: 1 };
        let contract = Contract {
            id: "contract_001".to_owned(),
            description: "Bring back one Fully Empty from the Zone".to_owned(),
            requirements: vec![requirement],
            completed: false,
        };
        ContractSystem { active_contracts: vec![contract] }
    }
}

} // verus!
