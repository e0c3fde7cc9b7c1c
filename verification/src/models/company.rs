//! The company that runs the service.

use crate::id::RecordId;
use vstd::prelude::*;

verus! {

/// The stored company.
#[derive(Debug)]
pub struct Company {
    pub _id: Option<RecordId>,
    pub name: String,
    pub field: String,
    pub contact: CompanyContact,
    pub image: Option<CompanyImage>,
}

/// How the company is reached.
#[derive(Debug)]
pub struct CompanyContact {
    pub address: String,
    pub email: Option<String>,
    pub phone: Option<String>,
}

/// The company's stored picture: its id and its media type.
#[derive(Debug)]
pub struct CompanyImage {
    pub _id: RecordId,
    pub extension: String,
}

/// The body of a request that creates or replaces the company.
#[derive(Debug)]
pub struct CompanyRequest {
    pub name: String,
    pub field: String,
    pub contact: CompanyContact,
    pub image: Option<CompanyImageRequest>,
}

/// The picture that a company request announces.
#[derive(Debug)]
pub struct CompanyImageRequest {
    pub extension: String,
}

/// The company as the service shows it.
#[derive(Debug)]
pub struct CompanyResponse {
    pub _id: String,
    pub name: String,
    pub field: String,
    pub contact: CompanyContactResponse,
    pub image: Option<CompanyImageResponse>,
}

/// How the company is reached, as the service shows it.
#[derive(Debug)]
pub struct CompanyContactResponse {
    pub address: String,
    pub email: Option<String>,
    pub phone: Option<String>,
}

/// The company's picture as the service shows it.
#[derive(Debug)]
pub struct CompanyImageResponse {
    pub _id: String,
    pub extension: String,
}

impl CompanyRequest {
    /// The company that a request makes under id `id` (`None` for a new one);
    /// an announced picture gets id `image_id`.
    pub fn into_company(self, id: Option<RecordId>, image_id: RecordId) -> (res: Company)
        ensures
            res._id == id,
            res.name == self.name,
            res.field == self.field,
            res.contact == self.contact,
            self.image is None ==> res.image is None,
            self.image matches Some(req) ==> (res.image matches Some(img) && img._id == image_id
                && img.extension == req.extension),
    {
        let image = match self.image {
            Some(req) => Some(CompanyImage { _id: image_id, extension: req.extension }),
            None => None,
        };
        Company { _id: id, name: self.name, field: self.field, contact: self.contact, image }
    }
}

} // verus!
