//! The golink service: the record and request shapes, the alias grammar, and
//! the operations that sit between a request dispatcher and a storage backend.

use crate::model::{added_somewhere, has_key, lookup, retargeted, well_formed, with_url, without};
use crate::paging::{
    clamp_page, clamp_page_size, clamped_page, clamped_page_size, page_of, DEFAULT_PAGE,
    DEFAULT_PAGE_SIZE,
};
use crate::reply::{
    created_reply, deleted, deleted_reply, failure, failure_reply, is_backend_failure,
    link_reply, link_reply_for, links_reply, listing_reply, page_reply, pagination_of, Reply,
    ReplyBodyView, ReplyView, ServiceError, ServiceErrorView, STATUS_CREATED, STATUS_OK,
};
use crate::stamp::{current_timestamp, fresh_id, ID_LENGTH, MIN_TIMESTAMP_LENGTH};
use crate::storage::GoStorage;
use crate::text::{parse_number, parsed_number};
use vstd::prelude::*;
use vstd::std_specs::iter::IteratorSpec;

verus! {

/// A short alias mapped to a destination URL.
#[derive(Debug)]
pub struct Golink {
    pub id: String,
    pub short_link: String,
    pub url: String,
    pub created_at: String,
}

/// The mathematical content of a [`Golink`].
pub struct GolinkView {
    pub id: Seq<char>,
    pub short_link: Seq<char>,
    pub url: Seq<char>,
    pub created_at: Seq<char>,
}

impl View for Golink {
    type V = GolinkView;

    open spec fn view(&self) -> GolinkView {
        GolinkView {
            id: self.id@,
            short_link: self.short_link@,
            url: self.url@,
            created_at: self.created_at@,
        }
    }
}

impl DeepView for Golink {
    type V = GolinkView;

    open spec fn deep_view(&self) -> GolinkView {
        self@
    }
}

impl Clone for Golink {
    fn clone(&self) -> (r: Self)
        ensures
            r == *self,
    {
        Golink {
            id: self.id.clone(),
            short_link: self.short_link.clone(),
            url: self.url.clone(),
            created_at: self.created_at.clone(),
        }
    }
}

/// The body of a request to create a golink.
#[derive(Debug)]
pub struct CreateGolink {
    pub short_link: String,
    pub url: String,
}

/// The body of a request to update a golink: the URL is the only field that
/// can change.
#[derive(Debug)]
pub struct UpdateGolink {
    pub url: String,
}

/// The metadata that accompanies one page of a listing.
#[derive(Debug, Clone, Copy, PartialEq, Eq, Structural)]
pub struct PaginationInfo {
    pub page: usize,
    pub page_size: usize,
    pub total_items: usize,
    pub total_pages: usize,
}

/// One page of a listing together with its metadata.
#[derive(Debug)]
pub struct PaginatedResponse<T> {
    pub data: Vec<T>,
    pub pagination: PaginationInfo,
}

/// The characters an alias may hold after its `go/` prefix: ASCII letters,
/// ASCII digits, underscore and hyphen.
pub open spec fn is_alias_char(c: char) -> bool {
    ||| 'a' <= c <= 'z'
    ||| 'A' <= c <= 'Z'
    ||| '0' <= c <= '9'
    ||| c == '_'
    ||| c == '-'
}

/// The alias grammar: the prefix `go/` followed by one or more alias
/// characters, and nothing else.
pub open spec fn is_valid_alias(s: Seq<char>) -> bool {
    &&& s.len() >= 4
    &&& s[0] == 'g'
    &&& s[1] == 'o'
    &&& s[2] == '/'
    &&& forall|i: int| 3 <= i < s.len() ==> is_alias_char(#[trigger] s[i])
}

/// The reason reported for an alias that does not follow the grammar.
pub open spec fn invalid_pattern_reason() -> Seq<char> {
    "Invalid golink pattern. Must match 'go/[a-zA-Z0-9_-]+'"@
}

fn alias_char(c: char) -> (r: bool)
    ensures
        r == is_alias_char(c),
{
    ('a' <= c && c <= 'z') || ('A' <= c && c <= 'Z') || ('0' <= c && c <= '9') || c == '_' || c
        == '-'
}

/// Checks a short link against the alias grammar.
pub fn validate_golink_pattern(short_link: &str) -> (r: Result<(), &'static str>)
    ensures
        r is Ok <==> is_valid_alias(short_link@),
        r is Err ==> r->Err_0@ == invalid_pattern_reason(),
{
    let reason = "Invalid golink pattern. Must match 'go/[a-zA-Z0-9_-]+'";
    let mut it = short_link.chars();
    let ghost s = short_link@;
    let ghost mut k: int = 0;
    // How many characters were read, counted up to four.
    let mut seen: u8 = 0;
    loop
        invariant
            0 <= k <= s.len(),
            s == short_link@,
            seen == (if k < 4 { k } else { 4 }),
            reason@ == invalid_pattern_reason(),
            it.remaining() == s.subrange(k, s.len() as int),
            k >= 1 ==> s[0] == 'g',
            k >= 2 ==> s[1] == 'o',
            k >= 3 ==> s[2] == '/',
            forall|i: int| 3 <= i < k ==> is_alias_char(#[trigger] s[i]),
        decreases s.len() - k,
    {
        match it.next() {
            None => {
                if seen >= 4 {
                    return Ok(());
                } else {
                    return Err(reason);
                }
            },
            Some(c) => {
                let fits = if seen == 0 {
                    c == 'g'
                } else if seen == 1 {
                    c == 'o'
                } else if seen == 2 {
                    c == '/'
                } else {
                    alias_char(c)
                };
                if !fits {
                    return Err(reason);
                }
                if seen < 4 {
                    seen = seen + 1;
                }
                proof {
                    assert(it.remaining() =~= s.subrange(k + 1, s.len() as int));
                    k = k + 1;
                }
            },
        }
    }
}

/// The key for the two segments of a request path: the prefix, a slash, and
/// the name. The service and the storage know a link by this one text only.
pub fn path_key(prefix: &str, name: &str) -> (key: String)
    ensures
        key@ == prefix@ + "/"@ + name@,
{
    prefix.to_owned().concat("/").concat(name)
}

/// The pagination parameters of a listing request, as they arrived: absent,
/// or the text that was sent.
#[derive(Debug)]
pub struct ListQuery {
    pub page: Option<String>,
    pub page_size: Option<String>,
}

/// Whether a listing request asks for a page: it does as soon as it names a
/// page or a page size, whatever the text.
pub open spec fn wants_page(page: Option<Seq<char>>, page_size: Option<Seq<char>>) -> bool {
    page is Some || page_size is Some
}

/// The number a pagination parameter stands for: what its text writes, or
/// `default` where it is absent or writes no number.
pub open spec fn parameter_or(parameter: Option<Seq<char>>, default: usize) -> usize {
    match parameter {
        Some(text) => match parsed_number(text) {
            Some(n) => n,
            None => default,
        },
        None => default,
    }
}

/// The page that a request asks for: 1 by default, and at least 1.
pub open spec fn requested_page(page: Option<Seq<char>>) -> usize {
    clamped_page(parameter_or(page, DEFAULT_PAGE) as int) as usize
}

/// The page size that a request asks for: 10 by default, and from 1 to 100.
pub open spec fn requested_page_size(page_size: Option<Seq<char>>) -> usize {
    clamped_page_size(parameter_or(page_size, DEFAULT_PAGE_SIZE) as int) as usize
}

/// The text of an optional parameter.
pub open spec fn parameter_text(parameter: Option<String>) -> Option<Seq<char>> {
    match parameter {
        Some(text) => Some(text@),
        None => None,
    }
}

/// The link that a create request makes, once it has an identifier and a
/// creation time.
pub fn new_golink(request: CreateGolink, id: String, created_at: String) -> (g: Golink)
    ensures
        g@ == (GolinkView {
            id: id@,
            short_link: request.short_link@,
            url: request.url@,
            created_at: created_at@,
        }),
{
    Golink { id: id, short_link: request.short_link, url: request.url, created_at: created_at }
}

/// Whether `g` is what a create request for `short_link` and `url` makes: the
/// two fields as they were sent, an identifier and a creation time.
pub open spec fn made_from(g: GolinkView, short_link: Seq<char>, url: Seq<char>) -> bool {
    &&& g.short_link == short_link
    &&& g.url == url
    &&& g.id.len() == ID_LENGTH
    &&& g.created_at.len() >= MIN_TIMESTAMP_LENGTH
}

/// Whether `reply` is the answer that `expected` describes, or, with a
/// backend that can fail, the report of a failure.
pub open spec fn answers(faultless: bool, reply: ReplyView, expected: ReplyView) -> bool {
    reply == expected || (!faultless && is_backend_failure(reply))
}

/// The reply that carries the requested page of `links`.
pub open spec fn page_reply_from(
    links: Seq<GolinkView>,
    page: Option<Seq<char>>,
    page_size: Option<Seq<char>>,
) -> ReplyView {
    ReplyView {
        status: STATUS_OK,
        body: ReplyBodyView::Page(
            page_of(links, requested_page(page) as int, requested_page_size(page_size) as int),
            pagination_of(
                requested_page(page),
                requested_page_size(page_size),
                links.len() as usize,
            ),
        ),
    }
}

fn parameter_value(parameter: &Option<String>, default: usize) -> (r: usize)
    ensures
        r == parameter_or(parameter_text(*parameter), default),
{
    match parameter {
        Some(text) => match parse_number(text.as_str()) {
            Some(n) => n,
            None => default,
        },
        None => default,
    }
}

/// The first step of a create, before any storage is touched: the alias is
/// checked, and a request that passes becomes a link with an identifier and
/// a creation time of its own. A request that does not pass becomes the
/// reply that turns it away.
pub fn prepare_create(request: CreateGolink) -> (r: Result<Golink, Reply>)
    ensures
        r is Ok <==> is_valid_alias(request.short_link@),
        match r {
            Ok(golink) => made_from(golink@, request.short_link@, request.url@),
            Err(reply) => reply@ == failure(
                ServiceErrorView::ValidationError(invalid_pattern_reason()),
            ),
        },
{
    if let Err(reason) = validate_golink_pattern(request.short_link.as_str()) {
        return Err(failure_reply(ServiceError::ValidationError(reason.to_owned())));
    }
    Ok(new_golink(request, fresh_id(), current_timestamp()))
}

/// How a listing request is served.
#[derive(Debug, Clone, Copy, PartialEq, Eq, Structural)]
pub enum ListPlan {
    /// With the whole listing.
    All,
    /// With one page of it.
    Page { page: usize, page_size: usize },
}

/// The plan for the pagination parameters `page` and `page_size`.
pub open spec fn list_plan_of(page: Option<Seq<char>>, page_size: Option<Seq<char>>) -> ListPlan {
    if wants_page(page, page_size) {
        ListPlan::Page { page: requested_page(page), page_size: requested_page_size(page_size) }
    } else {
        ListPlan::All
    }
}

/// Decides how a listing request is served: with a page as soon as it names
/// a page or a page size, and with the whole listing where it names neither.
pub fn list_plan(params: &ListQuery) -> (plan: ListPlan)
    ensures
        plan == list_plan_of(parameter_text(params.page), parameter_text(params.page_size)),
{
    if params.page.is_some() || params.page_size.is_some() {
        ListPlan::Page {
            page: clamp_page(parameter_value(&params.page, DEFAULT_PAGE)),
            page_size: clamp_page_size(parameter_value(&params.page_size, DEFAULT_PAGE_SIZE)),
        }
    } else {
        ListPlan::All
    }
}

/// Creates a golink: checks the alias, gives the link an identifier and a
/// creation time, and stores it. An alias that does not follow the grammar
/// is turned away before the storage is touched.
pub fn create_golink<S: GoStorage>(request: CreateGolink, storage: &mut S) -> (reply: Reply)
    ensures
        final(storage).faultless() == old(storage).faultless(),
        well_formed(old(storage).listing()) ==> well_formed(final(storage).listing()),
        is_valid_alias(request.short_link@) ==> well_formed(final(storage).listing()),
        !is_valid_alias(request.short_link@) ==> {
            &&& reply@ == failure(ServiceErrorView::ValidationError(invalid_pattern_reason()))
            &&& final(storage).listing() == old(storage).listing()
        },
        is_valid_alias(request.short_link@) ==> {
            ||| {
                &&& reply.status == STATUS_CREATED
                &&& reply@.body matches ReplyBodyView::Link(g)
                &&& made_from(g, request.short_link@, request.url@)
                &&& !has_key(old(storage).listing(), request.short_link@)
                &&& added_somewhere(old(storage).listing(), g, final(storage).listing())
                &&& lookup(final(storage).listing(), request.short_link@) == Some(g)
            }
            ||| {
                &&& reply@ == failure(ServiceErrorView::Conflict)
                &&& has_key(old(storage).listing(), request.short_link@)
                &&& final(storage).listing() == old(storage).listing()
            }
            ||| {
                &&& is_backend_failure(reply@)
                &&& !old(storage).faultless()
                &&& final(storage).listing() == old(storage).listing()
            }
        },
        is_valid_alias(request.short_link@) && old(storage).faultless() ==> (reply.status
            == STATUS_CREATED <==> !has_key(old(storage).listing(), request.short_link@)),
{
    match prepare_create(request) {
        Err(reply) => reply,
        Ok(golink) => {
            let outcome = storage.create(golink.clone());
            created_reply(golink, outcome)
        },
    }
}

/// Reads the golink stored under `short_link`.
pub fn get_golink<S: GoStorage>(short_link: String, storage: &S) -> (reply: Reply)
    ensures
        well_formed(storage.listing()),
        answers(
            storage.faultless(),
            reply@,
            match lookup(storage.listing(), short_link@) {
                Some(g) => link_reply(STATUS_OK, g),
                None => failure(ServiceErrorView::NotFound),
            },
        ),
{
    link_reply_for(storage.get(short_link.as_str()))
}

/// Lists the golinks, newest first: one page of them with its metadata where
/// the request names a page or a page size, and all of them where it names
/// neither.
pub fn get_all_golinks<S: GoStorage>(params: ListQuery, storage: &S) -> (reply: Reply)
    ensures
        well_formed(storage.listing()),
        answers(
            storage.faultless(),
            reply@,
            if wants_page(parameter_text(params.page), parameter_text(params.page_size)) {
                page_reply_from(
                    storage.listing(),
                    parameter_text(params.page),
                    parameter_text(params.page_size),
                )
            } else {
                links_reply(storage.listing())
            },
        ),
{
    match list_plan(&params) {
        ListPlan::Page { page, page_size } => page_reply(
            page,
            page_size,
            storage.get_paginated(page, page_size),
        ),
        ListPlan::All => listing_reply(storage.get_all()),
    }
}

/// Replaces the URL of the golink stored under `short_link`; nothing else
/// of a link can change.
pub fn update_golink<S: GoStorage>(
    short_link: String,
    request: UpdateGolink,
    storage: &mut S,
) -> (reply: Reply)
    ensures
        final(storage).faultless() == old(storage).faultless(),
        well_formed(old(storage).listing()),
        well_formed(final(storage).listing()),
        match lookup(old(storage).listing(), short_link@) {
            Some(g) => {
                ||| {
                    &&& reply@ == link_reply(STATUS_OK, retargeted(g, request.url@))
                    &&& final(storage).listing() == with_url(
                        old(storage).listing(),
                        short_link@,
                        request.url@,
                    )
                    &&& lookup(final(storage).listing(), short_link@) == Some(
                        retargeted(g, request.url@),
                    )
                }
                ||| {
                    &&& is_backend_failure(reply@)
                    &&& !old(storage).faultless()
                    &&& {
                        ||| final(storage).listing() == old(storage).listing()
                        ||| final(storage).listing() == with_url(
                            old(storage).listing(),
                            short_link@,
                            request.url@,
                        )
                    }
                }
            },
            None => {
                &&& answers(
                    old(storage).faultless(),
                    reply@,
                    failure(ServiceErrorView::NotFound),
                )
                &&& final(storage).listing() == old(storage).listing()
            },
        },
{
    link_reply_for(storage.update(short_link.as_str(), request.url))
}

/// Removes the golink stored under `short_link`.
pub fn delete_golink<S: GoStorage>(short_link: String, storage: &mut S) -> (reply: Reply)
    ensures
        final(storage).faultless() == old(storage).faultless(),
        well_formed(old(storage).listing()),
        well_formed(final(storage).listing()),
        if has_key(old(storage).listing(), short_link@) {
            ||| {
                &&& reply@ == deleted()
                &&& final(storage).listing() == without(old(storage).listing(), short_link@)
                &&& !has_key(final(storage).listing(), short_link@)
            }
            ||| {
                &&& is_backend_failure(reply@)
                &&& !old(storage).faultless()
                &&& final(storage).listing() == old(storage).listing()
            }
        } else {
            &&& answers(old(storage).faultless(), reply@, failure(ServiceErrorView::NotFound))
            &&& final(storage).listing() == old(storage).listing()
        },
{
    deleted_reply(storage.delete(short_link.as_str()))
}

} // verus!
