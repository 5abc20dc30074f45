//! The records that the service reads and writes, and its configuration.

use vstd::prelude::*;
use vstd::std_specs::convert::FromSpecImpl;

verus! {

/// What every request is served with: the prefix that a short id is appended
/// to. It is used as given, a trailing `/` included or not.
#[derive(Debug, PartialEq, Eq)]
pub struct AppState {
    pub base_url: String,
}

/// The body of a shortening request.
#[derive(Debug, PartialEq, Eq)]
pub struct Url {
    pub long_url: String,
}

/// A row of the `urls` table: a short id and the long URL that it stands for.
#[derive(Debug, PartialEq, Eq)]
pub struct URLDBEntry {
    pub id: String,
    pub long_url: String,
}

/// A row of the `stats` table: a short id and the number of redirects served
/// for it.
#[derive(Debug, PartialEq, Eq)]
pub struct StatsEntry {
    pub id: String,
    pub visits_count: i32,
}

/// A `urls` row as contracts see it.
pub struct UrlRow {
    pub id: Seq<char>,
    pub url: Seq<char>,
}

/// A `stats` row as contracts see it.
pub struct StatsRow {
    pub id: Seq<char>,
    pub visits_count: int,
}

impl View for URLDBEntry {
    type V = UrlRow;

    open spec fn view(&self) -> UrlRow {
        UrlRow { id: self.id@, url: self.long_url@ }
    }
}

impl View for StatsEntry {
    type V = StatsRow;

    open spec fn view(&self) -> StatsRow {
        StatsRow { id: self.id@, visits_count: self.visits_count as int }
    }
}

impl Clone for AppState {
    fn clone(&self) -> (copy: Self)
        ensures
            copy.base_url@ == self.base_url@,
    {
        AppState { base_url: self.base_url.clone() }
    }
}

impl Clone for Url {
    fn clone(&self) -> (copy: Self)
        ensures
            copy.long_url@ == self.long_url@,
    {
        Url { long_url: self.long_url.clone() }
    }
}

impl Default for Url {
    fn default() -> (url: Self)
        ensures
            url.long_url@ == Seq::<char>::empty(),
    {
        Url { long_url: String::new() }
    }
}

impl Clone for URLDBEntry {
    fn clone(&self) -> (copy: Self)
        ensures
            copy@ == self@,
    {
        URLDBEntry { id: self.id.clone(), long_url: self.long_url.clone() }
    }
}

impl Default for URLDBEntry {
    fn default() -> (entry: Self)
        ensures
            entry@ == (UrlRow { id: Seq::empty(), url: Seq::empty() }),
    {
        URLDBEntry { id: String::new(), long_url: String::new() }
    }
}

impl From<(&str, &str)> for URLDBEntry {
    /// The row that binds the id `body.0` to the long URL `body.1`.
    fn from(body: (&str, &str)) -> (entry: Self)
        ensures
            entry@ == (UrlRow { id: body.0@, url: body.1@ }),
    {
        URLDBEntry { id: body.0.to_owned(), long_url: body.1.to_owned() }
    }
}

/// No specification can build a `String`, so what `from` returns is stated on
/// `from` itself, over the row's view, and not by a `from_spec`.
impl FromSpecImpl<(&str, &str)> for URLDBEntry {
    open spec fn obeys_from_spec() -> bool {
        false
    }

    open spec fn from_spec(body: (&str, &str)) -> Self {
        arbitrary()
    }
}

impl Clone for StatsEntry {
    fn clone(&self) -> (copy: Self)
        ensures
            copy@ == self@,
    {
        StatsEntry { id: self.id.clone(), visits_count: self.visits_count }
    }
}

} // verus!
