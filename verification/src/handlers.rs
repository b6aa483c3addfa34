//! Request handlers: thin adapters that perform exactly one repository call
//! and map its outcome to an HTTP-shaped reply.
//!
//! The surrounding web framework routes requests to these handlers and
//! serializes the reply bodies; the mapping itself — which status code and
//! which body each repository outcome produces — lives here.

use vstd::prelude::*;

use crate::model::ProductRecord;
use crate::model::views_of;
use crate::repository::DeleteOutcome;
use crate::repository::GetOutcome;
use crate::repository::ListOutcome;
use crate::repository::ProductRepository;
use crate::repository::first_match;
use crate::repository::has_id;
use crate::repository::spec_delete;

verus! {

/// The body of an HTTP-shaped reply, before serialization.
pub enum ReplyBody {
    /// A JSON array of product records.
    Records(Vec<ProductRecord>),
    /// A single JSON product record.
    Record(ProductRecord),
    /// A plain-text message.
    Message(String),
    /// An empty body.
    Empty,
}

/// An HTTP-shaped reply: a status code and a body.
pub struct HttpReply {
    pub status: u16,
    pub body: ReplyBody,
}

/// Lists the whole collection: 200 with every record in current order, or
/// 500 with a generic message when the repository is poisoned.
pub fn get_products(repo: &ProductRepository) -> (r: HttpReply)
    ensures
        repo.is_poisoned() ==> r.status == 500
            && (r.body matches ReplyBody::Message(m) && m@ == "Internal server error"@),
        !repo.is_poisoned() ==> r.status == 200
            && (r.body matches ReplyBody::Records(v) && views_of(v@) == repo@),
{
    match repo.list_all() {
        ListOutcome::Listed(v) => HttpReply { status: 200, body: ReplyBody::Records(v) },
        ListOutcome::InternalFailure => HttpReply {
            status: 500,
            body: ReplyBody::Message("Internal server error".to_owned()),
        },
    }
}

/// Reads one record by id: 200 with a copy of the first match, 404 with a
/// fixed message when no record matches, or 500 with a generic message when
/// the repository is poisoned.
pub fn get_product(repo: &ProductRepository, product_id: u64) -> (r: HttpReply)
    ensures
        repo.is_poisoned() ==> r.status == 500
            && (r.body matches ReplyBody::Message(m) && m@ == "Internal server error"@),
        !repo.is_poisoned() && has_id(repo@, product_id) ==> r.status == 200
            && (r.body matches ReplyBody::Record(p)
                && p@ == repo@[first_match(repo@, product_id)]),
        !repo.is_poisoned() && !has_id(repo@, product_id) ==> r.status == 404
            && (r.body matches ReplyBody::Message(m) && m@ == "Product not found"@),
{
    match repo.get_by_id(product_id) {
        GetOutcome::Found(p) => HttpReply { status: 200, body: ReplyBody::Record(p) },
        GetOutcome::NotFound => HttpReply {
            status: 404,
            body: ReplyBody::Message("Product not found".to_owned()),
        },
        GetOutcome::InternalFailure => HttpReply {
            status: 500,
            body: ReplyBody::Message("Internal server error".to_owned()),
        },
    }
}

/// Deletes one record by id: 200 with an empty body when the first match was
/// removed, 404 with a fixed message when no record matches, or 500 with a
/// generic message — and no change at all — when the repository is poisoned.
pub fn delete_product(repo: &mut ProductRepository, product_id: u64) -> (r: HttpReply)
    ensures
        final(repo).is_poisoned() == old(repo).is_poisoned(),
        old(repo).is_poisoned() ==> r.status == 500
            && (r.body matches ReplyBody::Message(m) && m@ == "Internal server error"@)
            && final(repo)@ == old(repo)@,
        !old(repo).is_poisoned() ==> final(repo)@ == spec_delete(old(repo)@, product_id),
        !old(repo).is_poisoned() && has_id(old(repo)@, product_id) ==> r.status == 200
            && r.body is Empty,
        !old(repo).is_poisoned() && !has_id(old(repo)@, product_id) ==> r.status == 404
            && (r.body matches ReplyBody::Message(m) && m@ == "Product not found"@),
{
    match repo.delete_by_id(product_id) {
        DeleteOutcome::Success => HttpReply { status: 200, body: ReplyBody::Empty },
        DeleteOutcome::NotFound => HttpReply {
            status: 404,
            body: ReplyBody::Message("Product not found".to_owned()),
        },
        DeleteOutcome::InternalFailure => HttpReply {
            status: 500,
            body: ReplyBody::Message("Internal server error".to_owned()),
        },
    }
}

} // verus!
