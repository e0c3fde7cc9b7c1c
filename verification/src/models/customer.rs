//! Customers of the company and their contact persons.

use crate::id::RecordId;
use vstd::prelude::*;

verus! {

/// A stored customer.
#[derive(Debug)]
pub struct Customer {
    pub _id: Option<RecordId>,
    pub name: String,
    pub field: String,
    pub contact: CustomerContact,
    pub person: Vec<CustomerPerson>,
    pub image: Option<CustomerImage>,
}

/// How a customer is reached.
#[derive(Debug)]
pub struct CustomerContact {
    pub address: String,
    pub email: Option<String>,
    pub phone: Option<String>,
}

/// A contact person at a customer.
#[derive(Debug)]
pub struct CustomerPerson {
    pub _id: Option<RecordId>,
    pub name: String,
    pub address: Option<String>,
    pub phone: Option<String>,
    pub email: Option<String>,
    pub role: String,
}

/// A customer's stored picture: its id and its media type.
#[derive(Debug)]
pub struct CustomerImage {
    pub _id: RecordId,
    pub extension: String,
}

/// What a listing of customers is narrowed to.
#[derive(Debug)]
pub struct CustomerQuery {
    pub _id: Option<RecordId>,
    pub name: Option<String>,
    pub limit: Option<usize>,
}

/// The body of a request that creates or replaces a customer.
#[derive(Debug)]
pub struct CustomerRequest {
    pub name: String,
    pub field: String,
    pub contact: CustomerContact,
    pub person: Vec<CustomerPerson>,
    pub image: Option<CustomerImageRequest>,
}

/// The picture that a customer request announces.
#[derive(Debug)]
pub struct CustomerImageRequest {
    pub extension: String,
}

/// A customer as the service shows it.
#[derive(Debug)]
pub struct CustomerResponse {
    pub _id: String,
    pub name: String,
    pub field: String,
    pub contact: CustomerContact,
    pub person: Vec<CustomerPersonResponse>,
    pub image: Option<CustomerImageResponse>,
}

/// A contact person as the service shows it.
#[derive(Debug)]
pub struct CustomerPersonResponse {
    pub _id: String,
    pub name: String,
    pub address: Option<String>,
    pub phone: Option<String>,
    pub email: Option<String>,
    pub role: String,
}

/// A customer's picture as the service shows it.
#[derive(Debug)]
pub struct CustomerImageResponse {
    pub _id: String,
    pub extension: String,
}

impl CustomerRequest {
    /// The customer that a request makes under id `id` (`None` for a new one);
    /// an announced picture gets id `image_id`.
    pub fn into_customer(self, id: Option<RecordId>, image_id: RecordId) -> (res: Customer)
        ensures
            res._id == id,
            res.name == self.name,
            res.field == self.field,
            res.contact == self.contact,
            res.person == self.person,
            self.image is None ==> res.image is None,
            self.image matches Some(req) ==> (res.image matches Some(img) && img._id == image_id
                && img.extension == req.extension),
    {
        let image = match self.image {
            Some(req) => Some(CustomerImage { _id: image_id, extension: req.extension }),
            None => None,
        };
        Customer {
            _id: id,
            name: self.name,
            field: self.field,
            contact: self.contact,
            person: self.person,
            image,
        }
    }
}

impl Customer {
    /// Gives a customer about to be stored its id, and each contact person the
    /// id at its position in `person_ids`.
    pub fn assign_ids(&mut self, id: RecordId, person_ids: &Vec<RecordId>)
        requires
            person_ids@.len() == old(self).person@.len(),
        ensures
            final(self)._id == Some(id),
            final(self).person@.len() == old(self).person@.len(),
            forall|i: int|
                0 <= i < final(self).person@.len() ==> {
                    let p = #[trigger] final(self).person@[i];
                    let q = old(self).person@[i];
                    &&& p._id == Some(person_ids@[i])
                    &&& p.name == q.name
                    &&& p.address == q.address
                    &&& p.phone == q.phone
                    &&& p.email == q.email
                    &&& p.role == q.role
                },
            final(self).name == old(self).name,
            final(self).field == old(self).field,
            final(self).contact == old(self).contact,
            final(self).image == old(self).image,
    {
        self._id = Some(id);
        let ghost before = self.person@;
        let mut people: Vec<CustomerPerson> = Vec::new();
        std::mem::swap(&mut people, &mut self.person);
        let n = people.len();
        let mut done: Vec<CustomerPerson> = Vec::new();
        let mut i: usize = 0;
        while i < n
            invariant
                n == before.len(),
                person_ids@.len() == n,
                0 <= i <= n,
                people@ == before.subrange(i as int, n as int),
                done@.len() == i,
                forall|k: int|
                    0 <= k < i ==> {
                        let p = #[trigger] done@[k];
                        let q = before[k];
                        &&& p._id == Some(person_ids@[k])
                        &&& p.name == q.name
                        &&& p.address == q.address
                        &&& p.phone == q.phone
                        &&& p.email == q.email
                        &&& p.role == q.role
                    },
            decreases n - i,
        {
            let mut p = people.remove(0);
            proof {
                assert(p == before[i as int]);
                assert(people@ =~= before.subrange(i as int + 1, n as int));
            }
            p._id = Some(person_ids[i]);
            done.push(p);
            i = i + 1;
        }
        self.person = done;
    }
}

} // verus!
