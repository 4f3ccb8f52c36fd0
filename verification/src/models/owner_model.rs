use crate::oid::RecordId;
use vstd::prelude::*;

verus! {

/// A customer record: identifier and contact details, immutable once stored.
#[derive(Debug)]
pub struct Owner {
    pub _id: RecordId,
    pub name: String,
    pub email: String,
    pub phone: String,
    pub address: String,
}

impl Clone for Owner {
    fn clone(&self) -> (res: Owner)
        ensures
            res == *self,
    {
        Owner {
            _id: self._id,
            name: self.name.clone(),
            email: self.email.clone(),
            phone: self.phone.clone(),
            address: self.address.clone(),
        }
    }
}

} // verus!
