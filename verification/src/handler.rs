//! The shortening service and the redirect service.
//!
//! Neither service touches the mapping store. Each is a machine that names the
//! one thing it needs from the store next and, given the store's answer, moves
//! on: to the next thing it needs, or to the result of the request. Whoever
//! holds the store asks it and hands the answer back, until the machine is
//! finished.

use crate::canonical::{parse_url, parsed_url, parsed_view};
use crate::data::{
    can_count, counted_visit, find_id, find_url, found_id, found_url, increment_visits_count,
    insert_stats_entry, insert_urls_entry, row_lookup_view, stats_insert_result,
    stats_lookup_view, urls_insert_result, write_view,
};
use crate::error::{Failure, ServiceError};
use crate::ident::{generate_id, is_valid_id};
use crate::model::{AppState, StatsEntry, StatsRow, URLDBEntry, Url, UrlRow};
use vstd::prelude::*;

verus! {

/// The HTTP status that answers a shortening that was served.
pub const SHORTENED_STATUS: u16 = 200;

/// The HTTP status that answers a redirect that was served: a temporary
/// redirect, with the long URL as its location.
pub const REDIRECT_STATUS: u16 = 307;

/// What a service needs from the mapping store.
#[derive(Debug, PartialEq, Eq)]
pub enum Request {
    /// The `urls` row of a long URL.
    FindByUrl(String),
    /// The `urls` row of a short id.
    FindById(String),
    /// A new `urls` row.
    InsertUrls(URLDBEntry),
    /// A new `stats` row for a short id, with no visit counted yet.
    InsertStats(String),
    /// The `stats` row of a short id.
    FindStats(String),
    /// The `stats` row of the entry's id replaced by the entry.
    UpdateStats(StatsEntry),
}

/// A `Request` as contracts see it.
pub enum RequestView {
    FindByUrl(Seq<char>),
    FindById(Seq<char>),
    InsertUrls(UrlRow),
    InsertStats(Seq<char>),
    FindStats(Seq<char>),
    UpdateStats(StatsRow),
}

impl View for Request {
    type V = RequestView;

    open spec fn view(&self) -> RequestView {
        match self {
            Request::FindByUrl(url) => RequestView::FindByUrl(url@),
            Request::FindById(id) => RequestView::FindById(id@),
            Request::InsertUrls(entry) => RequestView::InsertUrls(entry@),
            Request::InsertStats(id) => RequestView::InsertStats(id@),
            Request::FindStats(id) => RequestView::FindStats(id@),
            Request::UpdateStats(entry) => RequestView::UpdateStats(entry@),
        }
    }
}

/// What the mapping store answered. An `Err` carries the store's message.
#[derive(Debug, PartialEq, Eq)]
pub enum Reply {
    /// To `FindByUrl` and `FindById`: the row, if there is one.
    Row(Result<Option<URLDBEntry>, String>),
    /// To `FindStats`: the row, if there is one.
    Stats(Result<Option<StatsEntry>, String>),
    /// To `InsertUrls`, `InsertStats` and `UpdateStats`: whether the row was
    /// written.
    Written(Result<(), String>),
}

/// A `Reply` as contracts see it.
pub enum ReplyView {
    Row(Result<Option<UrlRow>, Seq<char>>),
    Stats(Result<Option<StatsRow>, Seq<char>>),
    Written(Result<(), Seq<char>>),
}

impl View for Reply {
    type V = ReplyView;

    open spec fn view(&self) -> ReplyView {
        match self {
            Reply::Row(found) => ReplyView::Row(row_lookup_view(*found)),
            Reply::Stats(found) => ReplyView::Stats(stats_lookup_view(*found)),
            Reply::Written(outcome) => ReplyView::Written(write_view(*outcome)),
        }
    }
}

/// What became of a candidate id.
#[derive(Debug, PartialEq, Eq)]
pub enum Allocation {
    /// No row bears the candidate: it is the new id.
    Accepted(String),
    /// A row bears the candidate: the id carried here is to be tried next.
    Retry(String),
}

/// An `Allocation` as contracts see it.
pub enum AllocationView {
    Accepted(Seq<char>),
    Retry(Seq<char>),
}

impl View for Allocation {
    type V = AllocationView;

    open spec fn view(&self) -> AllocationView {
        match self {
            Allocation::Accepted(id) => AllocationView::Accepted(id@),
            Allocation::Retry(id) => AllocationView::Retry(id@),
        }
    }
}

/// A request that is under way: what has been settled so far, and with it
/// what the store is being asked.
#[derive(Debug, PartialEq, Eq)]
#[allow(inconsistent_fields)]
pub enum Pending {
    /// Shortening: is the long URL bound to an id already?
    Deduplicating { base_url: String, url: String },
    /// Shortening: does a row bear the candidate id?
    Allocating { base_url: String, url: String, candidate: String },
    /// Shortening: the `urls` row is being inserted.
    InsertingUrls { base_url: String, entry: URLDBEntry },
    /// Shortening: the `stats` row is being inserted.
    InsertingStats { base_url: String, entry: URLDBEntry },
    /// Redirecting: which long URL does the id stand for?
    Resolving { id: String },
    /// Redirecting: the `stats` row of the id is being read.
    ReadingStats { id: String, url: String },
    /// Redirecting: the `stats` row is being written back, one visit higher.
    UpdatingStats { url: String, entry: StatsEntry },
}

/// A `Pending` as contracts see it.
#[allow(inconsistent_fields)]
pub enum PendingView {
    Deduplicating { base_url: Seq<char>, url: Seq<char> },
    Allocating { base_url: Seq<char>, url: Seq<char>, candidate: Seq<char> },
    InsertingUrls { base_url: Seq<char>, entry: UrlRow },
    InsertingStats { base_url: Seq<char>, entry: UrlRow },
    Resolving { id: Seq<char> },
    ReadingStats { id: Seq<char>, url: Seq<char> },
    UpdatingStats { url: Seq<char>, entry: StatsRow },
}

impl View for Pending {
    type V = PendingView;

    open spec fn view(&self) -> PendingView {
        match self {
            Pending::Deduplicating { base_url, url } => PendingView::Deduplicating {
                base_url: base_url@,
                url: url@,
            },
            Pending::Allocating { base_url, url, candidate } => PendingView::Allocating {
                base_url: base_url@,
                url: url@,
                candidate: candidate@,
            },
            Pending::InsertingUrls { base_url, entry } => PendingView::InsertingUrls {
                base_url: base_url@,
                entry: entry@,
            },
            Pending::InsertingStats { base_url, entry } => PendingView::InsertingStats {
                base_url: base_url@,
                entry: entry@,
            },
            Pending::Resolving { id } => PendingView::Resolving { id: id@ },
            Pending::ReadingStats { id, url } => PendingView::ReadingStats { id: id@, url: url@ },
            Pending::UpdatingStats { url, entry } => PendingView::UpdatingStats {
                url: url@,
                entry: entry@,
            },
        }
    }
}

/// Where a request stands: it waits for the store, or it is served.
#[derive(Debug, PartialEq, Eq)]
pub enum Step {
    /// The store is to be asked `Pending::request`, and its answer handed to
    /// `Pending::resume`.
    Ask(Pending),
    /// The request is served. A shortening ends in the short URL, a redirect
    /// in the long URL to send the visitor to.
    Finish(Result<String, ServiceError>),
}

/// A `Step` as contracts see it.
pub enum StepView {
    Ask(PendingView),
    Finish(Result<Seq<char>, Failure>),
}

impl View for Step {
    type V = StepView;

    open spec fn view(&self) -> StepView {
        match self {
            Step::Ask(pending) => StepView::Ask(pending@),
            Step::Finish(Ok(text)) => StepView::Finish(Ok(text@)),
            Step::Finish(Err(error)) => StepView::Finish(Err(error@)),
        }
    }
}

/// What becomes of `candidate`, given the long URL that the store holds under
/// it: none, and the candidate is the new id; one, and `fresh` is tried next.
pub open spec fn allocation(candidate: Seq<char>, existing: Option<Seq<char>>, fresh: Seq<char>)
    -> AllocationView {
    match existing {
        None => AllocationView::Accepted(candidate),
        Some(_) => AllocationView::Retry(fresh),
    }
}

/// What a request that is under way asks of the store.
pub open spec fn request_of(pending: PendingView) -> RequestView {
    match pending {
        PendingView::Deduplicating { url, .. } => RequestView::FindByUrl(url),
        PendingView::Allocating { candidate, .. } => RequestView::FindById(candidate),
        PendingView::InsertingUrls { entry, .. } => RequestView::InsertUrls(entry),
        PendingView::InsertingStats { entry, .. } => RequestView::InsertStats(entry.id),
        PendingView::Resolving { id } => RequestView::FindById(id),
        PendingView::ReadingStats { id, .. } => RequestView::FindStats(id),
        PendingView::UpdatingStats { entry, .. } => RequestView::UpdateStats(entry),
    }
}

/// Whether the step that `reply` leads to puts a freshly drawn id to use: the
/// long URL has no id yet, or the candidate is taken.
pub open spec fn draws(pending: PendingView, reply: ReplyView) -> bool {
    match pending {
        PendingView::Deduplicating { .. } => reply matches ReplyView::Row(found) && found_id(
            found,
        ) is None,
        PendingView::Allocating { .. } => reply matches ReplyView::Row(found) && found_url(
            found,
        ) is Some,
        _ => false,
    }
}

/// Whether `reply` can be taken up: a count that was read must leave room for
/// one more visit.
pub open spec fn admits(pending: PendingView, reply: ReplyView) -> bool {
    pending is ReadingStats ==> (reply matches ReplyView::Stats(found) ==> can_count(found))
}

/// Where a request stands after the store's answer, `fresh` being the id that
/// is drawn if one is needed. An answer of another kind than the one asked for
/// changes nothing: the request goes on waiting.
///
/// Shortening: a long URL that has an id ends in that id behind the base
/// URL. One that has none gets a candidate id, and candidates are tried until
/// the store holds no row under one; then the `urls` row and after it the
/// `stats` row are inserted, and the first insert that fails ends the request.
///
/// Redirecting: an id without a row is not found. Otherwise the visit is
/// counted: the `stats` row is read and written back with its count one
/// higher. The request fails if the row cannot be read or cannot be written;
/// only a visit that was counted ends in the long URL.
pub open spec fn next_step(pending: PendingView, reply: ReplyView, fresh: Seq<char>) -> StepView {
    match pending {
        PendingView::Deduplicating { base_url, url } => match reply {
            ReplyView::Row(found) => match found_id(found) {
                Some(id) => StepView::Finish(Ok(base_url + id)),
                None => StepView::Ask(PendingView::Allocating { base_url, url, candidate: fresh }),
            },
            _ => StepView::Ask(pending),
        },
        PendingView::Allocating { base_url, url, candidate } => match reply {
            ReplyView::Row(found) => match allocation(candidate, found_url(found), fresh) {
                AllocationView::Accepted(id) => StepView::Ask(
                    PendingView::InsertingUrls { base_url, entry: UrlRow { id, url } },
                ),
                AllocationView::Retry(next) => StepView::Ask(
                    PendingView::Allocating { base_url, url, candidate: next },
                ),
            },
            _ => StepView::Ask(pending),
        },
        PendingView::InsertingUrls { base_url, entry } => match reply {
            ReplyView::Written(outcome) => match urls_insert_result(outcome) {
                Ok(_) => StepView::Ask(PendingView::InsertingStats { base_url, entry }),
                Err(message) => StepView::Finish(Err(Failure::PersistenceError(message))),
            },
            _ => StepView::Ask(pending),
        },
        PendingView::InsertingStats { base_url, entry } => match reply {
            ReplyView::Written(outcome) => match stats_insert_result(outcome) {
                Ok(_) => StepView::Finish(Ok(base_url + entry.id)),
                Err(message) => StepView::Finish(Err(Failure::PersistenceError(message))),
            },
            _ => StepView::Ask(pending),
        },
        PendingView::Resolving { id } => match reply {
            ReplyView::Row(found) => match found_url(found) {
                Some(url) => StepView::Ask(PendingView::ReadingStats { id, url }),
                None => StepView::Finish(Err(Failure::NotFound)),
            },
            _ => StepView::Ask(pending),
        },
        PendingView::ReadingStats { id, url } => match reply {
            ReplyView::Stats(found) => match counted_visit(id, found) {
                Ok(entry) => StepView::Ask(PendingView::UpdatingStats { url, entry }),
                Err(message) => StepView::Finish(Err(Failure::PersistenceError(message))),
            },
            _ => StepView::Ask(pending),
        },
        PendingView::UpdatingStats { url, entry } => match reply {
            ReplyView::Written(Ok(_)) => StepView::Finish(Ok(url)),
            ReplyView::Written(Err(message)) => StepView::Finish(
                Err(Failure::PersistenceError(message)),
            ),
            _ => StepView::Ask(pending),
        },
    }
}

/// Where a shortening request stands once its text is parsed: a text that is
/// no URL ends it, and nothing is asked of the store; a URL is looked up in
/// its canonical form.
pub open spec fn shorten_start(base_url: Seq<char>, parsed: Result<Seq<char>, Seq<char>>)
    -> StepView {
    match parsed {
        Ok(url) => StepView::Ask(PendingView::Deduplicating { base_url, url }),
        Err(message) => StepView::Finish(Err(Failure::InvalidInput(message))),
    }
}

/// Where a redirect request stands at first: the id is looked up.
pub open spec fn redirect_start(id: Seq<char>) -> StepView {
    StepView::Ask(PendingView::Resolving { id })
}

/// Settles what becomes of a candidate id, given the long URL that the store
/// holds under it. A candidate that no row bears is accepted as it is; one
/// that is taken is dropped for `fresh`, which has to be checked in turn.
pub fn create_valid_id(candidate: String, existing: Option<String>, fresh: String) -> (result:
    Allocation)
    ensures
        result@ == allocation(candidate@, existing.deep_view(), fresh@),
        result is Accepted <==> existing is None,
{
    match existing {
        None => Allocation::Accepted(candidate),
        Some(_) => Allocation::Retry(fresh),
    }
}

/// Takes up a shortening request whose text has been parsed already, `parsed`
/// being the canonical form of the URL or the parser's message.
pub fn start_shortening(state: &AppState, parsed: Result<String, String>) -> (step: Step)
    ensures
        step@ == shorten_start(state.base_url@, parsed_view(parsed)),
{
    match parsed {
        Ok(url) => Step::Ask(Pending::Deduplicating { base_url: state.base_url.clone(), url }),
        Err(message) => Step::Finish(Err(ServiceError::InvalidInput(message))),
    }
}

/// Takes up a shortening request: parses the text as an absolute URL. A text
/// that is none ends the request with `InvalidInput` and the parser's
/// message; a URL goes on in its canonical form, first to the question
/// whether it has an id already.
pub fn handle_get_short_url(state: &AppState, url: &Url) -> (step: Step)
    ensures
        step@ == shorten_start(state.base_url@, parsed_url(url.long_url@)),
{
    start_shortening(state, parse_url(url.long_url.as_str()))
}

/// Takes up a redirect request: the id is looked up as it is given.
pub fn handle_url_redirect(id: String) -> (step: Step)
    ensures
        step@ == redirect_start(id@),
{
    Step::Ask(Pending::Resolving { id })
}

impl Pending {
    /// What the store is to be asked.
    pub fn request(&self) -> (request: Request)
        ensures
            request@ == request_of(self@),
    {
        match self {
            Pending::Deduplicating { url, .. } => Request::FindByUrl(url.clone()),
            Pending::Allocating { candidate, .. } => Request::FindById(candidate.clone()),
            Pending::InsertingUrls { entry, .. } => Request::InsertUrls(entry.clone()),
            Pending::InsertingStats { entry, .. } => Request::InsertStats(entry.id.clone()),
            Pending::Resolving { id } => Request::FindById(id.clone()),
            Pending::ReadingStats { id, .. } => Request::FindStats(id.clone()),
            Pending::UpdatingStats { entry, .. } => Request::UpdateStats(entry.clone()),
        }
    }

    /// Whether taking up `reply` puts a freshly drawn id to use.
    pub fn draws(&self, reply: &Reply) -> (drawn: bool)
        ensures
            drawn == draws(self@, reply@),
    {
        match self {
            Pending::Deduplicating { .. } => match reply {
                Reply::Row(Ok(Some(_))) => false,
                Reply::Row(_) => true,
                _ => false,
            },
            Pending::Allocating { .. } => match reply {
                Reply::Row(Ok(Some(_))) => true,
                _ => false,
            },
            _ => false,
        }
    }

    /// Whether `reply` can be taken up: it cannot where it holds a count that
    /// is to be raised and has no room for one more visit.
    pub fn admits(&self, reply: &Reply) -> (admitted: bool)
        ensures
            admitted == admits(self@, reply@),
    {
        match self {
            Pending::ReadingStats { .. } => match reply {
                Reply::Stats(Ok(Some(entry))) => entry.visits_count < i32::MAX,
                _ => true,
            },
            _ => true,
        }
    }

    /// Goes on with the store's answer, using `fresh` where a new candidate id
    /// is called for. An id that is not called for is dropped.
    pub fn resume_with(self, reply: Reply, fresh: String) -> (step: Step)
        requires
            admits(self@, reply@),
        ensures
            step@ == next_step(self@, reply@, fresh@),
    {
        match self {
            Pending::Deduplicating { base_url, url } => match reply {
                Reply::Row(found) => match find_id(found) {
                    Some(id) => {
                        let mut short = base_url;
                        short.append(id.as_str());
                        Step::Finish(Ok(short))
                    },
                    None => Step::Ask(Pending::Allocating { base_url, url, candidate: fresh }),
                },
                _ => Step::Ask(Pending::Deduplicating { base_url, url }),
            },
            Pending::Allocating { base_url, url, candidate } => match reply {
                Reply::Row(found) => match create_valid_id(candidate, find_url(found), fresh) {
                    Allocation::Accepted(id) => {
                        let entry = URLDBEntry::from((id.as_str(), url.as_str()));
                        Step::Ask(Pending::InsertingUrls { base_url, entry })
                    },
                    Allocation::Retry(next) => Step::Ask(
                        Pending::Allocating { base_url, url, candidate: next },
                    ),
                },
                _ => Step::Ask(Pending::Allocating { base_url, url, candidate }),
            },
            Pending::InsertingUrls { base_url, entry } => match reply {
                Reply::Written(outcome) => match insert_urls_entry(outcome) {
                    Ok(_) => Step::Ask(Pending::InsertingStats { base_url, entry }),
                    Err(message) => Step::Finish(Err(ServiceError::PersistenceError(message))),
                },
                _ => Step::Ask(Pending::InsertingUrls { base_url, entry }),
            },
            Pending::InsertingStats { base_url, entry } => match reply {
                Reply::Written(outcome) => match insert_stats_entry(outcome) {
                    Ok(_) => {
                        let mut short = base_url;
                        short.append(entry.id.as_str());
                        Step::Finish(Ok(short))
                    },
                    Err(message) => Step::Finish(Err(ServiceError::PersistenceError(message))),
                },
                _ => Step::Ask(Pending::InsertingStats { base_url, entry }),
            },
            Pending::Resolving { id } => match reply {
                Reply::Row(found) => match find_url(found) {
                    Some(url) => Step::Ask(Pending::ReadingStats { id, url }),
                    None => Step::Finish(Err(ServiceError::NotFound)),
                },
                _ => Step::Ask(Pending::Resolving { id }),
            },
            Pending::ReadingStats { id, url } => match reply {
                Reply::Stats(found) => match increment_visits_count(id.as_str(), found) {
                    Ok(entry) => Step::Ask(Pending::UpdatingStats { url, entry }),
                    Err(message) => Step::Finish(Err(ServiceError::PersistenceError(message))),
                },
                _ => Step::Ask(Pending::ReadingStats { id, url }),
            },
            Pending::UpdatingStats { url, entry } => match reply {
                Reply::Written(Ok(_)) => Step::Finish(Ok(url)),
                Reply::Written(Err(message)) => Step::Finish(
                    Err(ServiceError::PersistenceError(message)),
                ),
                _ => Step::Ask(Pending::UpdatingStats { url, entry }),
            },
        }
    }

    /// Goes on with the store's answer. Where a new candidate id is called
    /// for, one is generated: which one is not known, only that it is
    /// well-formed.
    pub fn resume(self, reply: Reply) -> (step: Step)
        requires
            admits(self@, reply@),
        ensures
            exists|fresh: Seq<char>|
                is_valid_id(fresh) && step@ == #[trigger] next_step(self@, reply@, fresh),
    {
        if self.draws(&reply) {
            let fresh = generate_id();
            self.resume_with(reply, fresh)
        } else {
            let ghost unused: Seq<char> = seq!['0'];
            assert(is_valid_id(unused));
            assert(next_step(self@, reply@, unused) == next_step(self@, reply@, Seq::empty()));
            self.resume_with(reply, String::new())
        }
    }
}

} // verus!
