//! The mapping store, held in memory: two tables of rows in the order in which
//! they were inserted, and the answer that the store gives to each request.
//!
//! This is the store that the services are stated against. A store that
//! lives elsewhere is expected to answer as this one does; it may also fail,
//! which this one never does on a lookup.

use crate::handler::{Reply, ReplyView, Request, RequestView};
use crate::model::{StatsEntry, StatsRow, URLDBEntry, UrlRow};
use vstd::prelude::*;

verus! {

/// The index of the first of `keys`, at or after `from`, that equals `key`.
pub open spec fn position(keys: Seq<Seq<char>>, key: Seq<char>, from: int) -> Option<int>
    decreases keys.len() - from,
{
    if from < 0 || from >= keys.len() {
        None
    } else if keys[from] == key {
        Some(from)
    } else {
        position(keys, key, from + 1)
    }
}

/// The ids of `urls` rows, row by row.
pub open spec fn url_ids(rows: Seq<UrlRow>) -> Seq<Seq<char>> {
    rows.map_values(|row: UrlRow| row.id)
}

/// The long URLs of `urls` rows, row by row.
pub open spec fn long_urls(rows: Seq<UrlRow>) -> Seq<Seq<char>> {
    rows.map_values(|row: UrlRow| row.url)
}

/// The ids of `stats` rows, row by row.
pub open spec fn stats_ids(rows: Seq<StatsRow>) -> Seq<Seq<char>> {
    rows.map_values(|row: StatsRow| row.id)
}

/// The contents of the mapping store.
pub struct Tables {
    /// The `urls` table, oldest row first.
    pub urls: Seq<UrlRow>,
    /// The `stats` table, oldest row first.
    pub stats: Seq<StatsRow>,
}

impl Tables {
    /// The store without a row.
    pub open spec fn empty() -> Tables {
        Tables { urls: Seq::empty(), stats: Seq::empty() }
    }

    /// The oldest `urls` row that holds the long URL.
    pub open spec fn row_by_url(self, url: Seq<char>) -> Option<UrlRow> {
        match position(long_urls(self.urls), url, 0) {
            Some(at) => Some(self.urls[at]),
            None => None,
        }
    }

    /// The oldest `urls` row under the id.
    pub open spec fn row_by_id(self, id: Seq<char>) -> Option<UrlRow> {
        match position(url_ids(self.urls), id, 0) {
            Some(at) => Some(self.urls[at]),
            None => None,
        }
    }

    /// The oldest `stats` row under the id.
    pub open spec fn stats_by_id(self, id: Seq<char>) -> Option<StatsRow> {
        match position(stats_ids(self.stats), id, 0) {
            Some(at) => Some(self.stats[at]),
            None => None,
        }
    }

    /// The tables agree: no two rows of a table share an id, an id has a row
    /// in both tables or in neither, and no count is negative.
    pub open spec fn consistent(self) -> bool {
        &&& url_ids(self.urls).no_duplicates()
        &&& stats_ids(self.stats).no_duplicates()
        &&& forall|id: Seq<char>|
            #![trigger self.row_by_id(id)]
            #![trigger self.stats_by_id(id)]
            self.row_by_id(id) is Some <==> self.stats_by_id(id) is Some
        &&& forall|at: int|
            0 <= at < self.stats.len() ==> (#[trigger] self.stats[at]).visits_count >= 0
    }

    /// The store after a request, and its answer. A lookup answers with the
    /// oldest row that matches and changes nothing. An insert appends the
    /// row, unless the table holds a row under the id already: then it fails
    /// and changes nothing. A new `stats` row counts no visit. An update
    /// replaces the oldest `stats` row under the entry's id, and fails where
    /// there is none.
    pub open spec fn answer(self, request: RequestView) -> (Tables, ReplyView) {
        match request {
            RequestView::FindByUrl(url) => (self, ReplyView::Row(Ok(self.row_by_url(url)))),
            RequestView::FindById(id) => (self, ReplyView::Row(Ok(self.row_by_id(id)))),
            RequestView::InsertUrls(row) => if self.row_by_id(row.id) is Some {
                (self, ReplyView::Written(Err(duplicate_id())))
            } else {
                (
                    Tables { urls: self.urls.push(row), stats: self.stats },
                    ReplyView::Written(Ok(())),
                )
            },
            RequestView::InsertStats(id) => if self.stats_by_id(id) is Some {
                (self, ReplyView::Written(Err(duplicate_id())))
            } else {
                (
                    Tables {
                        urls: self.urls,
                        stats: self.stats.push(StatsRow { id, visits_count: 0 }),
                    },
                    ReplyView::Written(Ok(())),
                )
            },
            RequestView::FindStats(id) => (self, ReplyView::Stats(Ok(self.stats_by_id(id)))),
            RequestView::UpdateStats(row) => match position(stats_ids(self.stats), row.id, 0) {
                Some(at) => (
                    Tables { urls: self.urls, stats: self.stats.update(at, row) },
                    ReplyView::Written(Ok(())),
                ),
                None => (self, ReplyView::Written(Err(missing_row()))),
            },
        }
    }
}

/// An index into a table as contracts see it.
pub open spec fn index_view(found: Option<usize>) -> Option<int> {
    match found {
        Some(at) => Some(at as int),
        None => None,
    }
}

/// The message of an insert that was refused.
pub open spec fn duplicate_id() -> Seq<char> {
    "a row with this id exists already"@
}

/// The message of an update that found no row.
pub open spec fn missing_row() -> Seq<char> {
    "no row with this id exists"@
}

/// A position that was found lies in the sequence, at or after the start of
/// the search, and holds the key; no earlier position from the start on does.
pub proof fn lemma_position_found(keys: Seq<Seq<char>>, key: Seq<char>, from: int)
    requires
        0 <= from,
    ensures
        match position(keys, key, from) {
            Some(at) => {
                &&& from <= at < keys.len()
                &&& keys[at] == key
                &&& forall|before: int| from <= before < at ==> keys[before] != key
            },
            None => forall|at: int| from <= at < keys.len() ==> keys[at] != key,
        },
    decreases keys.len() - from,
{
    if from < keys.len() && keys[from] != key {
        lemma_position_found(keys, key, from + 1);
    }
}

/// Appending a key changes no search that found a key before; a search that
/// found none finds the appended key, if that is the one sought.
pub proof fn lemma_position_after_push(
    keys: Seq<Seq<char>>,
    last: Seq<char>,
    key: Seq<char>,
    from: int,
)
    requires
        0 <= from <= keys.len(),
    ensures
        position(keys.push(last), key, from) == match position(keys, key, from) {
            Some(at) => Some(at),
            None => if last == key {
                Some(keys.len() as int)
            } else {
                None
            },
        },
    decreases keys.len() - from,
{
    if from < keys.len() {
        assert(keys.push(last)[from] == keys[from]);
        if keys[from] != key {
            lemma_position_after_push(keys, last, key, from + 1);
        }
    } else {
        assert(keys.push(last)[from] == last);
        assert(position(keys.push(last), key, from + 1) is None);
    }
}

/// The mapping store in memory.
pub struct MappingStore {
    urls: Vec<URLDBEntry>,
    stats: Vec<StatsEntry>,
}

impl View for MappingStore {
    type V = Tables;

    closed spec fn view(&self) -> Tables {
        Tables {
            urls: self.urls@.map_values(|entry: URLDBEntry| entry@),
            stats: self.stats@.map_values(|entry: StatsEntry| entry@),
        }
    }
}

impl MappingStore {
    /// A store without a row.
    pub fn new() -> (store: Self)
        ensures
            store@ == Tables::empty(),
    {
        let store = MappingStore { urls: Vec::new(), stats: Vec::new() };
        assert(store@.urls =~= Seq::empty());
        assert(store@.stats =~= Seq::empty());
        store
    }

    /// The number of rows in the `urls` table.
    pub fn urls_len(&self) -> (len: usize)
        ensures
            len == self@.urls.len(),
    {
        self.urls.len()
    }

    /// The number of rows in the `stats` table.
    pub fn stats_len(&self) -> (len: usize)
        ensures
            len == self@.stats.len(),
    {
        self.stats.len()
    }

    fn position_by_url(&self, url: &String) -> (found: Option<usize>)
        ensures
            index_view(found) == position(long_urls(self@.urls), url@, 0),
            found matches Some(at) ==> at < self.urls.len(),
    {
        let ghost keys = long_urls(self@.urls);
        let mut at: usize = 0;
        while at < self.urls.len()
            invariant
                at <= self.urls.len(),
                keys == long_urls(self@.urls),
                keys.len() == self.urls.len(),
                position(keys, url@, 0) == position(keys, url@, at as int),
            decreases self.urls.len() - at,
        {
            if self.urls[at].long_url == *url {
                return Some(at);
            }
            at = at + 1;
        }
        None
    }

    fn position_by_id(&self, id: &String) -> (found: Option<usize>)
        ensures
            index_view(found) == position(url_ids(self@.urls), id@, 0),
            found matches Some(at) ==> at < self.urls.len(),
    {
        let ghost keys = url_ids(self@.urls);
        let mut at: usize = 0;
        while at < self.urls.len()
            invariant
                at <= self.urls.len(),
                keys == url_ids(self@.urls),
                keys.len() == self.urls.len(),
                position(keys, id@, 0) == position(keys, id@, at as int),
            decreases self.urls.len() - at,
        {
            if self.urls[at].id == *id {
                return Some(at);
            }
            at = at + 1;
        }
        None
    }

    fn position_of_stats(&self, id: &String) -> (found: Option<usize>)
        ensures
            index_view(found) == position(stats_ids(self@.stats), id@, 0),
            found matches Some(at) ==> at < self.stats.len(),
    {
        let ghost keys = stats_ids(self@.stats);
        let mut at: usize = 0;
        while at < self.stats.len()
            invariant
                at <= self.stats.len(),
                keys == stats_ids(self@.stats),
                keys.len() == self.stats.len(),
                position(keys, id@, 0) == position(keys, id@, at as int),
            decreases self.stats.len() - at,
        {
            if self.stats[at].id == *id {
                return Some(at);
            }
            at = at + 1;
        }
        None
    }

    /// Serves a request: changes the tables as the request asks, and answers.
    /// No lookup fails; an insert fails under an id that the table holds
    /// already, an update under one that it does not hold.
    pub fn answer(&mut self, request: Request) -> (reply: Reply)
        ensures
            (final(self)@, reply@) == old(self)@.answer(request@),
    {
        match request {
            Request::FindByUrl(url) => match self.position_by_url(&url) {
                Some(at) => Reply::Row(Ok(Some(self.urls[at].clone()))),
                None => Reply::Row(Ok(None)),
            },
            Request::FindById(id) => match self.position_by_id(&id) {
                Some(at) => Reply::Row(Ok(Some(self.urls[at].clone()))),
                None => Reply::Row(Ok(None)),
            },
            Request::InsertUrls(entry) => match self.position_by_id(&entry.id) {
                Some(_) => Reply::Written(Err("a row with this id exists already".to_owned())),
                None => {
                    self.urls.push(entry);
                    assert(self@.urls =~= old(self)@.urls.push(entry@));
                    Reply::Written(Ok(()))
                },
            },
            Request::InsertStats(id) => match self.position_of_stats(&id) {
                Some(_) => Reply::Written(Err("a row with this id exists already".to_owned())),
                None => {
                    let entry = StatsEntry { id, visits_count: 0 };
                    self.stats.push(entry);
                    assert(self@.stats =~= old(self)@.stats.push(entry@));
                    Reply::Written(Ok(()))
                },
            },
            Request::FindStats(id) => match self.position_of_stats(&id) {
                Some(at) => Reply::Stats(Ok(Some(self.stats[at].clone()))),
                None => Reply::Stats(Ok(None)),
            },
            Request::UpdateStats(entry) => match self.position_of_stats(&entry.id) {
                Some(at) => {
                    self.stats.set(at, entry);
                    assert(self@.stats =~= old(self)@.stats.update(at as int, entry@));
                    Reply::Written(Ok(()))
                },
                None => Reply::Written(Err("no row with this id exists".to_owned())),
            },
        }
    }
}

} // verus!
