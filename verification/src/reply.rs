//! Replies: what a request is answered with, the outward errors and their
//! statuses, and how the answer of a storage backend becomes a reply.

use crate::paging::{page_count, total_pages};
use crate::service::{Golink, GolinkView, PaginatedResponse, PaginationInfo};
use crate::storage::{StorageError, StorageResult};
use vstd::prelude::*;

verus! {

/// How a request fails, as the caller gets to see it.
#[derive(Debug)]
pub enum ServiceError {
    /// The alias does not follow the grammar; the text says why.
    ValidationError(String),
    /// The short link is taken.
    Conflict,
    /// No link is stored under the short link.
    NotFound,
    /// The backend failed; the text is for the operator, not for the caller.
    BackendFailure(String),
}

/// The mathematical content of a [`ServiceError`].
pub enum ServiceErrorView {
    ValidationError(Seq<char>),
    Conflict,
    NotFound,
    BackendFailure(Seq<char>),
}

impl View for ServiceError {
    type V = ServiceErrorView;

    open spec fn view(&self) -> ServiceErrorView {
        match self {
            ServiceError::ValidationError(reason) => ServiceErrorView::ValidationError(reason@),
            ServiceError::Conflict => ServiceErrorView::Conflict,
            ServiceError::NotFound => ServiceErrorView::NotFound,
            ServiceError::BackendFailure(detail) => ServiceErrorView::BackendFailure(detail@),
        }
    }
}

/// The status of a successful read, update, listing or delete.
pub const STATUS_OK: u16 = 200;

/// The status of a successful create.
pub const STATUS_CREATED: u16 = 201;

/// The status of a request that was turned away as malformed.
pub const STATUS_BAD_REQUEST: u16 = 400;

/// The status of a request for a link that is not stored.
pub const STATUS_NOT_FOUND: u16 = 404;

/// The status of a create under a short link that is taken.
pub const STATUS_CONFLICT: u16 = 409;

/// The status of a request on which the backend failed.
pub const STATUS_INTERNAL_SERVER_ERROR: u16 = 500;

/// The status under which an error goes out.
pub open spec fn status_of(e: ServiceErrorView) -> u16 {
    match e {
        ServiceErrorView::ValidationError(_) => STATUS_BAD_REQUEST,
        ServiceErrorView::Conflict => STATUS_CONFLICT,
        ServiceErrorView::NotFound => STATUS_NOT_FOUND,
        ServiceErrorView::BackendFailure(_) => STATUS_INTERNAL_SERVER_ERROR,
    }
}

/// The text under which an error goes out. A backend failure goes out under
/// a fixed text that says nothing of the fault itself.
pub open spec fn message_of(e: ServiceErrorView) -> Seq<char> {
    match e {
        ServiceErrorView::ValidationError(reason) => reason,
        ServiceErrorView::Conflict => "Golink already exists"@,
        ServiceErrorView::NotFound => "Golink not found"@,
        ServiceErrorView::BackendFailure(_) => "Internal storage error"@,
    }
}

/// The detail recorded when a backend answers with an error that the
/// operation at hand cannot give.
pub open spec fn unexpected_detail() -> Seq<char> {
    "Unexpected error"@
}

/// The text that confirms a deletion.
pub open spec fn deleted_message() -> Seq<char> {
    "Golink deleted successfully"@
}

impl ServiceError {
    /// The status under which this error goes out.
    pub fn status(&self) -> (r: u16)
        ensures
            r == status_of(self@),
    {
        match self {
            ServiceError::ValidationError(_) => STATUS_BAD_REQUEST,
            ServiceError::Conflict => STATUS_CONFLICT,
            ServiceError::NotFound => STATUS_NOT_FOUND,
            ServiceError::BackendFailure(_) => STATUS_INTERNAL_SERVER_ERROR,
        }
    }

    /// The text under which this error goes out.
    pub fn message(&self) -> (r: String)
        ensures
            r@ == message_of(self@),
    {
        match self {
            ServiceError::ValidationError(reason) => reason.clone(),
            ServiceError::Conflict => "Golink already exists".to_owned(),
            ServiceError::NotFound => "Golink not found".to_owned(),
            ServiceError::BackendFailure(_) => "Internal storage error".to_owned(),
        }
    }
}

/// What a reply carries.
#[derive(Debug)]
pub enum ReplyBody {
    /// One link.
    Link(Golink),
    /// The whole listing.
    Links(Vec<Golink>),
    /// One page of the listing with its metadata.
    Page(PaginatedResponse<Golink>),
    /// A confirmation.
    Message(String),
    /// An error.
    Failure(ServiceError),
}

/// The mathematical content of a [`ReplyBody`].
pub enum ReplyBodyView {
    Link(GolinkView),
    Links(Seq<GolinkView>),
    Page(Seq<GolinkView>, PaginationInfo),
    Message(Seq<char>),
    Failure(ServiceErrorView),
}

impl View for ReplyBody {
    type V = ReplyBodyView;

    open spec fn view(&self) -> ReplyBodyView {
        match self {
            ReplyBody::Link(golink) => ReplyBodyView::Link(golink@),
            ReplyBody::Links(links) => ReplyBodyView::Links(links.deep_view()),
            ReplyBody::Page(page) => ReplyBodyView::Page(page.data.deep_view(), page.pagination),
            ReplyBody::Message(text) => ReplyBodyView::Message(text@),
            ReplyBody::Failure(error) => ReplyBodyView::Failure(error@),
        }
    }
}

/// The outcome of a request: a status and a body.
#[derive(Debug)]
pub struct Reply {
    pub status: u16,
    pub body: ReplyBody,
}

/// The mathematical content of a [`Reply`].
pub struct ReplyView {
    pub status: u16,
    pub body: ReplyBodyView,
}

impl View for Reply {
    type V = ReplyView;

    open spec fn view(&self) -> ReplyView {
        ReplyView { status: self.status, body: self.body@ }
    }
}

/// The reply that reports the error `e`.
pub open spec fn failure(e: ServiceErrorView) -> ReplyView {
    ReplyView { status: status_of(e), body: ReplyBodyView::Failure(e) }
}

/// The reply that carries one link under `status`.
pub open spec fn link_reply(status: u16, g: GolinkView) -> ReplyView {
    ReplyView { status: status, body: ReplyBodyView::Link(g) }
}

/// The outward error for a storage error in an operation that looks a key
/// up: absence passes through, a fault becomes a backend failure, and
/// anything else is unexpected.
pub open spec fn lookup_error(e: StorageError) -> ServiceErrorView {
    match e {
        StorageError::NotFound => ServiceErrorView::NotFound,
        StorageError::DatabaseError(detail) => ServiceErrorView::BackendFailure(detail@),
        StorageError::AlreadyExists => ServiceErrorView::BackendFailure(unexpected_detail()),
    }
}

/// The outward error for a storage error in an operation that lists: a fault
/// becomes a backend failure, and anything else is unexpected.
pub open spec fn listing_error(e: StorageError) -> ServiceErrorView {
    match e {
        StorageError::DatabaseError(detail) => ServiceErrorView::BackendFailure(detail@),
        _ => ServiceErrorView::BackendFailure(unexpected_detail()),
    }
}

/// The reply to a create request for `g`, given what the backend answered.
pub open spec fn create_reply_of(g: GolinkView, outcome: StorageResult<()>) -> ReplyView {
    match outcome {
        Ok(_) => link_reply(STATUS_CREATED, g),
        Err(StorageError::AlreadyExists) => failure(ServiceErrorView::Conflict),
        Err(StorageError::DatabaseError(detail)) => failure(
            ServiceErrorView::BackendFailure(detail@),
        ),
        Err(StorageError::NotFound) => failure(
            ServiceErrorView::BackendFailure(unexpected_detail()),
        ),
    }
}

/// The reply to a request that reads or updates one link, given what the
/// backend answered.
pub open spec fn link_reply_of(outcome: StorageResult<Golink>) -> ReplyView {
    match outcome {
        Ok(g) => link_reply(STATUS_OK, g@),
        Err(e) => failure(lookup_error(e)),
    }
}

/// The reply to a delete request, given what the backend answered.
pub open spec fn delete_reply_of(outcome: StorageResult<()>) -> ReplyView {
    match outcome {
        Ok(_) => ReplyView { status: STATUS_OK, body: ReplyBodyView::Message(deleted_message()) },
        Err(e) => failure(lookup_error(e)),
    }
}

/// The reply to an unpaginated listing request, given what the backend
/// answered.
pub open spec fn listing_reply_of(outcome: StorageResult<Vec<Golink>>) -> ReplyView {
    match outcome {
        Ok(links) => ReplyView { status: STATUS_OK, body: ReplyBodyView::Links(links.deep_view()) },
        Err(e) => failure(listing_error(e)),
    }
}

/// The metadata of a page: the page and page size as served, the number of
/// stored links, and the number of pages that makes.
pub open spec fn pagination_of(page: usize, page_size: usize, total: usize) -> PaginationInfo {
    PaginationInfo {
        page: page,
        page_size: page_size,
        total_items: total,
        total_pages: page_count(total as int, page_size as int) as usize,
    }
}

/// The reply to a paginated listing request for page `page` of size
/// `page_size`, given what the backend answered.
pub open spec fn page_reply_of(
    page: usize,
    page_size: usize,
    outcome: StorageResult<(Vec<Golink>, usize)>,
) -> ReplyView {
    match outcome {
        Ok((links, total)) => ReplyView {
            status: STATUS_OK,
            body: ReplyBodyView::Page(links.deep_view(), pagination_of(page, page_size, total)),
        },
        Err(e) => failure(listing_error(e)),
    }
}

/// The reply that reports `error`.
pub fn failure_reply(error: ServiceError) -> (r: Reply)
    ensures
        r@ == failure(error@),
{
    Reply { status: error.status(), body: ReplyBody::Failure(error) }
}

fn lookup_failure(error: StorageError) -> (r: ServiceError)
    ensures
        r@ == lookup_error(error),
{
    match error {
        StorageError::NotFound => ServiceError::NotFound,
        StorageError::DatabaseError(detail) => ServiceError::BackendFailure(detail),
        StorageError::AlreadyExists => ServiceError::BackendFailure("Unexpected error".to_owned()),
    }
}

fn listing_failure(error: StorageError) -> (r: ServiceError)
    ensures
        r@ == listing_error(error),
{
    match error {
        StorageError::DatabaseError(detail) => ServiceError::BackendFailure(detail),
        _ => ServiceError::BackendFailure("Unexpected error".to_owned()),
    }
}

/// Turns the backend's answer to a create into the reply.
pub fn created_reply(golink: Golink, outcome: StorageResult<()>) -> (r: Reply)
    ensures
        r@ == create_reply_of(golink@, outcome),
{
    match outcome {
        Ok(_) => Reply { status: STATUS_CREATED, body: ReplyBody::Link(golink) },
        Err(StorageError::AlreadyExists) => failure_reply(ServiceError::Conflict),
        Err(StorageError::DatabaseError(detail)) => failure_reply(
            ServiceError::BackendFailure(detail),
        ),
        Err(StorageError::NotFound) => failure_reply(
            ServiceError::BackendFailure("Unexpected error".to_owned()),
        ),
    }
}

/// Turns the backend's answer to a read or an update into the reply.
pub fn link_reply_for(outcome: StorageResult<Golink>) -> (r: Reply)
    ensures
        r@ == link_reply_of(outcome),
{
    match outcome {
        Ok(golink) => Reply { status: STATUS_OK, body: ReplyBody::Link(golink) },
        Err(error) => failure_reply(lookup_failure(error)),
    }
}

/// Turns the backend's answer to a delete into the reply.
pub fn deleted_reply(outcome: StorageResult<()>) -> (r: Reply)
    ensures
        r@ == delete_reply_of(outcome),
{
    match outcome {
        Ok(_) => Reply {
            status: STATUS_OK,
            body: ReplyBody::Message("Golink deleted successfully".to_owned()),
        },
        Err(error) => failure_reply(lookup_failure(error)),
    }
}

/// Turns the backend's answer to an unpaginated listing into the reply.
pub fn listing_reply(outcome: StorageResult<Vec<Golink>>) -> (r: Reply)
    ensures
        r@ == listing_reply_of(outcome),
{
    match outcome {
        Ok(links) => Reply { status: STATUS_OK, body: ReplyBody::Links(links) },
        Err(error) => failure_reply(listing_failure(error)),
    }
}

/// Turns the backend's answer to a paginated listing into the reply.
pub fn page_reply(page: usize, page_size: usize, outcome: StorageResult<(Vec<Golink>, usize)>) -> (r:
    Reply)
    ensures
        r@ == page_reply_of(page, page_size, outcome),
{
    match outcome {
        Ok((links, total)) => {
            let pagination = PaginationInfo {
                page: page,
                page_size: page_size,
                total_items: total,
                total_pages: total_pages(total, page_size),
            };
            Reply {
                status: STATUS_OK,
                body: ReplyBody::Page(PaginatedResponse { data: links, pagination: pagination }),
            }
        },
        Err(error) => failure_reply(listing_failure(error)),
    }
}

/// Whether a reply reports a backend failure.
pub open spec fn is_backend_failure(reply: ReplyView) -> bool {
    &&& reply.status == STATUS_INTERNAL_SERVER_ERROR
    &&& reply.body matches ReplyBodyView::Failure(ServiceErrorView::BackendFailure(_))
}

/// The reply that carries the whole listing.
pub open spec fn links_reply(links: Seq<GolinkView>) -> ReplyView {
    ReplyView { status: STATUS_OK, body: ReplyBodyView::Links(links) }
}

/// The reply that confirms a deletion.
pub open spec fn deleted() -> ReplyView {
    ReplyView { status: STATUS_OK, body: ReplyBodyView::Message(deleted_message()) }
}

} // verus!
