use crate::oid::RecordId;
use vstd::prelude::*;

verus! {

/// A dog record: identifier, the owning customer's identifier as a foreign
/// key, and descriptive details, immutable once stored.
#[derive(Debug)]
pub struct Dog {
    pub _id: RecordId,
    pub owner: RecordId,
    pub name: String,
    pub age: u8,
    pub breed: String,
}

impl Clone for Dog {
    fn clone(&self) -> (res: Dog)
        ensures
            res == *self,
    {
        Dog {
            _id: self._id,
            owner: self.owner,
            name: self.name.clone(),
            age: self.age,
            breed: self.breed.clone(),
        }
    }
}

} // verus!
