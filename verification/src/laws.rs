//! What holds of the services when they are run against the mapping store,
//! whatever ids are drawn on the way.

use crate::canonical::parsed_url;
use crate::data::{counted_visit, stats_insert_result};
use crate::error::Failure;
use crate::handler::{redirect_start, shorten_start, PendingView, StepView};
use crate::ident::is_valid_id;
use crate::model::{StatsRow, UrlRow};
use crate::run::run;
use crate::store::{
    duplicate_id, lemma_position_after_push, lemma_position_found, long_urls, position, stats_ids,
    url_ids, Tables,
};
use vstd::prelude::*;

verus! {

/// A text that is no URL is turned down with the parser's message, and the
/// store is left as it was.
pub proof fn invalid_text_is_rejected(
    store: Tables,
    base_url: Seq<char>,
    raw: Seq<char>,
    candidates: Seq<Seq<char>>,
)
    requires
        parsed_url(raw) is Err,
    ensures
        run(shorten_start(base_url, parsed_url(raw)), store, candidates) == (
            store,
            Some(Err::<Seq<char>, Failure>(Failure::InvalidInput(parsed_url(raw)->Err_0))),
        ),
{
}

/// An id that no row bears is not found, and the store is left as it was.
pub proof fn unknown_id_is_not_found(store: Tables, id: Seq<char>, candidates: Seq<Seq<char>>)
    requires
        store.row_by_id(id) is None,
    ensures
        run(redirect_start(id), store, candidates) == (
            store,
            Some(Err::<Seq<char>, Failure>(Failure::NotFound)),
        ),
{
    reveal_with_fuel(run, 2);
}

/// The id that allocation settles on: the first of `candidate` and, after
/// it, of `candidates` that no row of the store bears. There is none where
/// every one of them is taken.
pub open spec fn allocated(store: Tables, candidate: Seq<char>, candidates: Seq<Seq<char>>)
    -> Option<Seq<char>>
    decreases candidates.len(),
{
    if store.row_by_id(candidate) is None {
        Some(candidate)
    } else if candidates.len() == 0 {
        None
    } else {
        allocated(store, candidates[0], candidates.drop_first())
    }
}

/// What binding a new id to a long URL comes to: the `urls` row is
/// appended, and then the `stats` row, unless the `stats` table holds a row
/// under the id already, which fails the request and leaves the `urls` row
/// behind.
pub open spec fn bound(store: Tables, base_url: Seq<char>, id: Seq<char>, url: Seq<char>) -> (
    Tables,
    Option<Result<Seq<char>, Failure>>,
) {
    let urls = store.urls.push(UrlRow { id, url });
    if store.stats_by_id(id) is Some {
        (
            Tables { urls, stats: store.stats },
            Some(Err(Failure::PersistenceError(stats_insert_result(Err(duplicate_id()))->Err_0))),
        )
    } else {
        (
            Tables { urls, stats: store.stats.push(StatsRow { id, visits_count: 0 }) },
            Some(Ok(base_url + id)),
        )
    }
}

/// What shortening a URL in canonical form comes to. A URL that the store
/// holds ends in the id of its oldest row, and the store stays as it is. For
/// one that it does not hold an id is allocated and bound.
pub open spec fn shortened(
    store: Tables,
    base_url: Seq<char>,
    url: Seq<char>,
    candidates: Seq<Seq<char>>,
) -> (Tables, Option<Result<Seq<char>, Failure>>) {
    match store.row_by_url(url) {
        Some(row) => (store, Some(Ok(base_url + row.id))),
        None => if candidates.len() == 0 {
            (store, None)
        } else {
            match allocated(store, candidates[0], candidates.drop_first()) {
                Some(id) => bound(store, base_url, id, url),
                None => (store, None),
            }
        },
    }
}

/// What a redirect comes to. An id without a `urls` row is not found. One
/// without a `stats` row cannot be counted, which fails the request.
/// Otherwise the oldest `stats` row under the id counts one visit more, and
/// the long URL of the oldest `urls` row is the target.
pub open spec fn redirected(store: Tables, id: Seq<char>) -> (
    Tables,
    Result<Seq<char>, Failure>,
) {
    match store.row_by_id(id) {
        None => (store, Err(Failure::NotFound)),
        Some(row) => match position(stats_ids(store.stats), id, 0) {
            None => (
                store,
                Err(Failure::PersistenceError(counted_visit(id, Ok(None))->Err_0)),
            ),
            Some(at) => (
                Tables {
                    urls: store.urls,
                    stats: store.stats.update(
                        at,
                        StatsRow { id, visits_count: store.stats[at].visits_count + 1 },
                    ),
                },
                Ok(row.url),
            ),
        },
    }
}

/// Allocation never settles on an id that a row of the store bears.
pub proof fn allocated_id_is_free(
    store: Tables,
    candidate: Seq<char>,
    candidates: Seq<Seq<char>>,
)
    ensures
        allocated(store, candidate, candidates) matches Some(id) ==> {
            &&& store.row_by_id(id) is None
            &&& forall|at: int| 0 <= at < store.urls.len() ==> (#[trigger] store.urls[at]).id != id
        },
    decreases candidates.len(),
{
    if store.row_by_id(candidate) is None {
        lemma_position_found(url_ids(store.urls), candidate, 0);
        assert forall|at: int| 0 <= at < store.urls.len() implies (#[trigger] store.urls[at]).id
            != candidate by {
            assert(url_ids(store.urls)[at] == store.urls[at].id);
        }
    } else if candidates.len() > 0 {
        allocated_id_is_free(store, candidates[0], candidates.drop_first());
    }
}

/// Allocation settles on one of the ids that it was offered.
pub proof fn allocated_id_is_a_candidate(
    store: Tables,
    candidate: Seq<char>,
    candidates: Seq<Seq<char>>,
)
    ensures
        allocated(store, candidate, candidates) matches Some(id) ==> seq![candidate].add(
            candidates,
        ).contains(id),
    decreases candidates.len(),
{
    let offered = seq![candidate].add(candidates);
    if store.row_by_id(candidate) is None {
        assert(offered[0] == candidate);
    } else if candidates.len() > 0 {
        let rest = seq![candidates[0]].add(candidates.drop_first());
        allocated_id_is_a_candidate(store, candidates[0], candidates.drop_first());
        assert(rest =~= candidates);
        if let Some(id) = allocated(store, candidates[0], candidates.drop_first()) {
            let at = choose|at: int| 0 <= at < candidates.len() && candidates[at] == id;
            assert(offered[at + 1] == id);
        }
    }
}

/// A run that waits for the check of a candidate id tries candidates until
/// one is free, and binds that one.
pub proof fn allocating_run(
    store: Tables,
    base_url: Seq<char>,
    url: Seq<char>,
    candidate: Seq<char>,
    candidates: Seq<Seq<char>>,
)
    ensures
        run(StepView::Ask(PendingView::Allocating { base_url, url, candidate }), store, candidates)
            == match allocated(store, candidate, candidates) {
            Some(id) => bound(store, base_url, id, url),
            None => (store, None),
        },
    decreases candidates.len(),
{
    reveal_with_fuel(run, 4);
    if store.row_by_id(candidate) is None {
    } else if candidates.len() > 0 {
        allocating_run(store, base_url, url, candidates[0], candidates.drop_first());
    }
}

/// A shortening run comes to what `shortened` says of the canonical form.
pub proof fn shortening_run(
    store: Tables,
    base_url: Seq<char>,
    url: Seq<char>,
    candidates: Seq<Seq<char>>,
)
    ensures
        run(shorten_start(base_url, Ok(url)), store, candidates) == shortened(
            store,
            base_url,
            url,
            candidates,
        ),
{
    reveal_with_fuel(run, 2);
    if store.row_by_url(url) is None && candidates.len() > 0 {
        allocating_run(store, base_url, url, candidates[0], candidates.drop_first());
    }
}

/// A redirect run comes to what `redirected` says, whatever ids are on offer.
pub proof fn redirecting_run(store: Tables, id: Seq<char>, candidates: Seq<Seq<char>>)
    ensures
        run(redirect_start(id), store, candidates) == (
            redirected(store, id).0,
            Some(redirected(store, id).1),
        ),
{
    reveal_with_fuel(run, 4);
    lemma_position_found(stats_ids(store.stats), id, 0);
    match position(stats_ids(store.stats), id, 0) {
        Some(at) => {
            assert(stats_ids(store.stats)[at] == store.stats[at].id);
        },
        None => {},
    }
}

/// The tables of a store without a row agree.
pub proof fn empty_store_is_consistent()
    ensures
        Tables::empty().consistent(),
{
    let store = Tables::empty();
    assert(url_ids(store.urls) =~= Seq::empty());
    assert(stats_ids(store.stats) =~= Seq::empty());
}

/// Binding an id that neither table holds puts it into both: the id then
/// stands for the long URL and counts no visit, every other id stands as it
/// stood, and tables that agreed still agree.
pub proof fn binding_a_free_id(store: Tables, base_url: Seq<char>, id: Seq<char>, url: Seq<char>)
    requires
        store.row_by_id(id) is None,
        store.stats_by_id(id) is None,
    ensures
        ({
            let (after, result) = bound(store, base_url, id, url);
            &&& result == Some(Ok::<Seq<char>, Failure>(base_url + id))
            &&& after.urls == store.urls.push(UrlRow { id, url })
            &&& after.stats == store.stats.push(StatsRow { id, visits_count: 0 })
            &&& after.row_by_id(id) == Some(UrlRow { id, url })
            &&& after.stats_by_id(id) == Some(StatsRow { id, visits_count: 0 })
            &&& store.row_by_url(url) is None ==> after.row_by_url(url) == Some(UrlRow { id, url })
            &&& forall|other: Seq<char>|
                other != id ==> #[trigger] after.row_by_id(other) == store.row_by_id(other)
            &&& forall|other: Seq<char>|
                other != id ==> #[trigger] after.stats_by_id(other) == store.stats_by_id(other)
            &&& store.consistent() ==> after.consistent()
        }),
{
    let after = bound(store, base_url, id, url).0;
    assert(url_ids(after.urls) =~= url_ids(store.urls).push(id));
    assert(long_urls(after.urls) =~= long_urls(store.urls).push(url));
    assert(stats_ids(after.stats) =~= stats_ids(store.stats).push(id));
    lemma_position_after_push(url_ids(store.urls), id, id, 0);
    lemma_position_after_push(long_urls(store.urls), url, url, 0);
    lemma_position_after_push(stats_ids(store.stats), id, id, 0);
    assert forall|other: Seq<char>| other != id implies #[trigger] after.row_by_id(other)
        == store.row_by_id(other) by {
        lemma_position_after_push(url_ids(store.urls), id, other, 0);
        lemma_position_found(url_ids(store.urls), other, 0);
    }
    assert forall|other: Seq<char>| other != id implies #[trigger] after.stats_by_id(other)
        == store.stats_by_id(other) by {
        lemma_position_after_push(stats_ids(store.stats), id, other, 0);
        lemma_position_found(stats_ids(store.stats), other, 0);
    }
    if store.consistent() {
        lemma_position_found(url_ids(store.urls), id, 0);
        lemma_position_found(stats_ids(store.stats), id, 0);
        assert(url_ids(after.urls).no_duplicates());
        assert(stats_ids(after.stats).no_duplicates());
        assert forall|other: Seq<char>|
            after.row_by_id(other) is Some <==> after.stats_by_id(other) is Some by {
            if other != id {
                assert(after.row_by_id(other) == store.row_by_id(other));
                assert(after.stats_by_id(other) == store.stats_by_id(other));
            }
        }
    }
}

/// Shortening keeps the tables in agreement, and where they agree it fails
/// for no URL: it ends in a short URL, or for want of a free candidate in no
/// result at all.
pub proof fn shortening_keeps_consistency(
    store: Tables,
    base_url: Seq<char>,
    raw: Seq<char>,
    candidates: Seq<Seq<char>>,
)
    requires
        store.consistent(),
    ensures
        ({
            let (after, result) = run(shorten_start(base_url, parsed_url(raw)), store, candidates);
            &&& after.consistent()
            &&& parsed_url(raw) is Ok ==> !(result matches Some(Err(_)))
        }),
{
    match parsed_url(raw) {
        Ok(url) => {
            shortening_run(store, base_url, url, candidates);
            if store.row_by_url(url) is None && candidates.len() > 0 {
                allocated_id_is_free(store, candidates[0], candidates.drop_first());
                match allocated(store, candidates[0], candidates.drop_first()) {
                    Some(id) => {
                        binding_a_free_id(store, base_url, id, url);
                    },
                    None => {},
                }
            }
        },
        Err(_) => {},
    }
}

/// A redirect keeps the tables in agreement.
pub proof fn redirecting_keeps_consistency(
    store: Tables,
    id: Seq<char>,
    candidates: Seq<Seq<char>>,
)
    requires
        store.consistent(),
    ensures
        run(redirect_start(id), store, candidates).0.consistent(),
{
    redirecting_run(store, id, candidates);
    let after = redirected(store, id).0;
    lemma_position_found(stats_ids(store.stats), id, 0);
    match position(stats_ids(store.stats), id, 0) {
        Some(at) => {
            assert(stats_ids(store.stats)[at] == store.stats[at].id);
            if store.row_by_id(id) is Some {
                assert(stats_ids(after.stats) =~= stats_ids(store.stats));
                assert forall|other: Seq<char>|
                    after.row_by_id(other) is Some <==> after.stats_by_id(other) is Some by {
                    assert(store.row_by_id(other) is Some <==> store.stats_by_id(other) is Some);
                }
            }
        },
        None => {},
    }
}

/// A request to the service: a text to shorten, with the ids that are drawn
/// while it is served, or an id to follow.
pub enum Call {
    Shorten { raw: Seq<char>, candidates: Seq<Seq<char>> },
    Redirect { id: Seq<char> },
}

/// The store after the requests were served one after another.
pub open spec fn served(store: Tables, base_url: Seq<char>, calls: Seq<Call>) -> Tables
    decreases calls.len(),
{
    if calls.len() == 0 {
        store
    } else {
        let before = served(store, base_url, calls.drop_last());
        match calls.last() {
            Call::Shorten { raw, candidates } => run(
                shorten_start(base_url, parsed_url(raw)),
                before,
                candidates,
            ).0,
            Call::Redirect { id } => run(redirect_start(id), before, Seq::empty()).0,
        }
    }
}

/// The store after `times` redirects of the id.
pub open spec fn redirected_times(store: Tables, id: Seq<char>, times: nat) -> Tables
    decreases times,
{
    if times == 0 {
        store
    } else {
        run(redirect_start(id), redirected_times(store, id, (times - 1) as nat), Seq::empty()).0
    }
}

/// Idempotence: where shortening a text has given a short URL, shortening it
/// again gives the same one and adds no row, whatever ids are drawn. The
/// first request itself adds one row to each table if the store did not hold
/// the URL, and none if it did.
pub proof fn shortening_is_idempotent(
    store: Tables,
    base_url: Seq<char>,
    raw: Seq<char>,
    first: Seq<Seq<char>>,
    second: Seq<Seq<char>>,
)
    ensures
        ({
            let start = shorten_start(base_url, parsed_url(raw));
            let (after, result) = run(start, store, first);
            result matches Some(Ok(_)) ==> {
                let url = parsed_url(raw)->Ok_0;
                &&& parsed_url(raw) is Ok
                &&& run(start, after, second) == (after, result)
                &&& store.row_by_url(url) is Some ==> after == store
                &&& store.row_by_url(url) is None ==> {
                    &&& after.urls.len() == store.urls.len() + 1
                    &&& after.stats.len() == store.stats.len() + 1
                }
            }
        }),
{
    match parsed_url(raw) {
        Ok(url) => {
            shortening_run(store, base_url, url, first);
            let (after, result) = shortened(store, base_url, url, first);
            shortening_run(after, base_url, url, second);
            if result is Some && result->0 is Ok && store.row_by_url(url) is None {
                let id = allocated(store, first[0], first.drop_first())->0;
                allocated_id_is_free(store, first[0], first.drop_first());
                binding_a_free_id(store, base_url, id, url);
            }
        },
        Err(_) => {},
    }
}

/// Uniqueness at allocation: a shortening that adds a `urls` row adds one,
/// under an id that no row of the store bore when the request was served.
pub proof fn shortening_allocates_a_free_id(
    store: Tables,
    base_url: Seq<char>,
    raw: Seq<char>,
    candidates: Seq<Seq<char>>,
)
    ensures
        ({
            let after = run(shorten_start(base_url, parsed_url(raw)), store, candidates).0;
            after.urls != store.urls ==> {
                &&& after.urls == store.urls.push(after.urls.last())
                &&& store.row_by_id(after.urls.last().id) is None
                &&& forall|at: int|
                    0 <= at < store.urls.len() ==> (#[trigger] store.urls[at]).id
                        != after.urls.last().id
            }
        }),
{
    match parsed_url(raw) {
        Ok(url) => {
            shortening_run(store, base_url, url, candidates);
            if store.row_by_url(url) is None && candidates.len() > 0 {
                allocated_id_is_free(store, candidates[0], candidates.drop_first());
            }
        },
        Err(_) => {},
    }
}

/// Uniqueness throughout: whatever requests are served one after another,
/// tables that agreed at first agree in the end. So no two `urls` rows ever
/// share an id, and none is without its `stats` row.
pub proof fn ids_stay_unique(store: Tables, base_url: Seq<char>, calls: Seq<Call>)
    requires
        store.consistent(),
    ensures
        served(store, base_url, calls).consistent(),
        url_ids(served(store, base_url, calls).urls).no_duplicates(),
    decreases calls.len(),
{
    if calls.len() > 0 {
        ids_stay_unique(store, base_url, calls.drop_last());
        let before = served(store, base_url, calls.drop_last());
        match calls.last() {
            Call::Shorten { raw, candidates } => {
                shortening_keeps_consistency(before, base_url, raw, candidates);
            },
            Call::Redirect { id } => {
                redirecting_keeps_consistency(before, id, Seq::empty());
            },
        }
    }
}

/// Every id of the `urls` table is well-formed.
pub open spec fn ids_are_valid(store: Tables) -> bool {
    forall|at: int| 0 <= at < store.urls.len() ==> is_valid_id((#[trigger] store.urls[at]).id)
}

/// Boundary: where every id that is drawn is well-formed, shortening leaves
/// none but well-formed ids in the store.
pub proof fn stored_ids_stay_valid(
    store: Tables,
    base_url: Seq<char>,
    raw: Seq<char>,
    candidates: Seq<Seq<char>>,
)
    requires
        ids_are_valid(store),
        forall|at: int| 0 <= at < candidates.len() ==> is_valid_id(#[trigger] candidates[at]),
    ensures
        ids_are_valid(run(shorten_start(base_url, parsed_url(raw)), store, candidates).0),
{
    match parsed_url(raw) {
        Ok(url) => {
            shortening_run(store, base_url, url, candidates);
            if store.row_by_url(url) is None && candidates.len() > 0 {
                allocated_id_is_a_candidate(store, candidates[0], candidates.drop_first());
                assert(seq![candidates[0]].add(candidates.drop_first()) =~= candidates);
            }
        },
        Err(_) => {},
    }
}

/// Round trip: where the tables agree, the id behind the base URL in a short
/// URL leads back to the canonical form of the text that was shortened.
pub proof fn short_url_leads_back(
    store: Tables,
    base_url: Seq<char>,
    raw: Seq<char>,
    candidates: Seq<Seq<char>>,
    later: Seq<Seq<char>>,
)
    requires
        store.consistent(),
    ensures
        ({
            let (after, result) = run(shorten_start(base_url, parsed_url(raw)), store, candidates);
            result matches Some(Ok(short)) ==> {
                let url = parsed_url(raw)->Ok_0;
                let id = after.row_by_url(url)->0.id;
                &&& parsed_url(raw) is Ok
                &&& after.row_by_url(url) is Some
                &&& short == base_url + id
                &&& run(redirect_start(id), after, later).1 == Some(
                    Ok::<Seq<char>, Failure>(url),
                )
            }
        }),
{
    match parsed_url(raw) {
        Ok(url) => {
            shortening_run(store, base_url, url, candidates);
            let (after, result) = shortened(store, base_url, url, candidates);
            if result is Some && result->0 is Ok {
                if store.row_by_url(url) is None {
                    let id = allocated(store, candidates[0], candidates.drop_first())->0;
                    allocated_id_is_free(store, candidates[0], candidates.drop_first());
                    binding_a_free_id(store, base_url, id, url);
                    redirecting_run(after, id, later);
                    lemma_position_found(stats_ids(after.stats), id, 0);
                } else {
                    let row = store.row_by_url(url)->0;
                    lemma_position_found(long_urls(store.urls), url, 0);
                    lemma_position_found(url_ids(store.urls), row.id, 0);
                    let found = position(long_urls(store.urls), url, 0)->0;
                    assert(long_urls(store.urls)[found] == store.urls[found].url);
                    assert(url_ids(store.urls)[found] == row.id);
                    assert(store.row_by_id(row.id) == Some(row));
                    assert(store.stats_by_id(row.id) is Some);
                    redirecting_run(store, row.id, later);
                    lemma_position_found(stats_ids(store.stats), row.id, 0);
                }
            }
        },
        Err(_) => {},
    }
}

/// A redirect that is served has counted its visit: the count of the id is
/// one higher than it was. One that fails leaves the store as it was.
pub proof fn served_redirect_is_counted(store: Tables, id: Seq<char>, candidates: Seq<Seq<char>>)
    ensures
        ({
            let (after, result) = run(redirect_start(id), store, candidates);
            &&& result is Some
            &&& result matches Some(Ok(url)) ==> {
                &&& store.row_by_id(id) matches Some(row) && row.url == url
                &&& store.stats_by_id(id) matches Some(read) && after.stats_by_id(id) == Some(
                    StatsRow { id, visits_count: read.visits_count + 1 },
                )
                &&& after.urls == store.urls
            }
            &&& result matches Some(Err(_)) ==> after == store
        }),
{
    redirecting_run(store, id, candidates);
    let after = redirected(store, id).0;
    lemma_position_found(stats_ids(store.stats), id, 0);
    if let Some(at) = position(stats_ids(store.stats), id, 0) {
        assert(stats_ids(store.stats)[at] == store.stats[at].id);
        if store.row_by_id(id) is Some {
            assert(stats_ids(after.stats) =~= stats_ids(store.stats));
        }
    }
}

/// Visit counting: `times` redirects of an id that has its rows raise its
/// count by `times` and change nothing else of the id, so that every one of
/// them leads to the long URL.
pub proof fn visits_are_counted(store: Tables, id: Seq<char>, times: nat)
    requires
        store.row_by_id(id) is Some,
        store.stats_by_id(id) is Some,
    ensures
        ({
            let after = redirected_times(store, id, times);
            &&& after.urls == store.urls
            &&& after.stats_by_id(id) == Some(
                StatsRow { id, visits_count: store.stats_by_id(id)->0.visits_count + times },
            )
            &&& run(redirect_start(id), after, Seq::empty()).1 == Some(
                Ok::<Seq<char>, Failure>(store.row_by_id(id)->0.url),
            )
        }),
    decreases times,
{
    let keys = stats_ids(store.stats);
    lemma_position_found(keys, id, 0);
    let at = position(keys, id, 0)->0;
    assert(keys[at] == store.stats[at].id);
    if times > 0 {
        visits_are_counted(store, id, (times - 1) as nat);
        let before = redirected_times(store, id, (times - 1) as nat);
        redirecting_run(before, id, Seq::empty());
        let earlier = stats_ids(before.stats);
        lemma_position_found(earlier, id, 0);
        let after = redirected_times(store, id, times);
        assert(stats_ids(after.stats) =~= earlier);
    }
    let after = redirected_times(store, id, times);
    redirecting_run(after, id, Seq::empty());
}

/// Visit counting from the start: an id that was just allocated has no
/// visit counted, and after `times` redirects it has `times`.
pub proof fn new_id_counts_from_zero(
    store: Tables,
    base_url: Seq<char>,
    raw: Seq<char>,
    candidates: Seq<Seq<char>>,
    times: nat,
)
    ensures
        ({
            let (after, result) = run(shorten_start(base_url, parsed_url(raw)), store, candidates);
            result matches Some(Ok(_)) && after.urls != store.urls ==> {
                let id = after.urls.last().id;
                &&& after.stats_by_id(id) == Some(StatsRow { id, visits_count: 0 })
                &&& redirected_times(after, id, times).stats_by_id(id) == Some(
                    StatsRow { id, visits_count: times as int },
                )
            }
        }),
{
    match parsed_url(raw) {
        Ok(url) => {
            shortening_run(store, base_url, url, candidates);
            let (after, result) = shortened(store, base_url, url, candidates);
            if result is Some && result->0 is Ok && after.urls != store.urls {
                let id = allocated(store, candidates[0], candidates.drop_first())->0;
                allocated_id_is_free(store, candidates[0], candidates.drop_first());
                binding_a_free_id(store, base_url, id, url);
                visits_are_counted(after, id, times);
            }
        },
        Err(_) => {},
    }
}

} // verus!
