//! What the service makes of the mapping store's answers. The store is asked
//! elsewhere; the functions here take what it answered and decide what that
//! means for the request at hand.

use crate::model::{StatsEntry, StatsRow, URLDBEntry, UrlRow};
use vstd::prelude::*;

verus! {

/// The answer to a lookup in the `urls` table, as contracts see it.
pub open spec fn row_lookup_view(found: Result<Option<URLDBEntry>, String>) -> Result<
    Option<UrlRow>,
    Seq<char>,
> {
    match found {
        Ok(Some(entry)) => Ok(Some(entry@)),
        Ok(None) => Ok(None),
        Err(message) => Err(message@),
    }
}

/// The answer to a lookup in the `stats` table, as contracts see it.
pub open spec fn stats_lookup_view(found: Result<Option<StatsEntry>, String>) -> Result<
    Option<StatsRow>,
    Seq<char>,
> {
    match found {
        Ok(Some(entry)) => Ok(Some(entry@)),
        Ok(None) => Ok(None),
        Err(message) => Err(message@),
    }
}

/// The answer to an insert or an update, as contracts see it.
pub open spec fn write_view(outcome: Result<(), String>) -> Result<(), Seq<char>> {
    match outcome {
        Ok(_) => Ok(()),
        Err(message) => Err(message@),
    }
}

/// The id of the row that a lookup found. A lookup that failed counts as one
/// that found nothing.
pub open spec fn found_id(found: Result<Option<UrlRow>, Seq<char>>) -> Option<Seq<char>> {
    match found {
        Ok(Some(row)) => Some(row.id),
        _ => None,
    }
}

/// The long URL of the row that a lookup found. A lookup that failed counts as
/// one that found nothing.
pub open spec fn found_url(found: Result<Option<UrlRow>, Seq<char>>) -> Option<Seq<char>> {
    match found {
        Ok(Some(row)) => Some(row.url),
        _ => None,
    }
}

/// What an insert into the `urls` table comes to: a failure is reported under
/// a message that names the table.
pub open spec fn urls_insert_result(outcome: Result<(), Seq<char>>) -> Result<(), Seq<char>> {
    match outcome {
        Ok(_) => Ok(()),
        Err(message) => Err("Failed to insert urls entry due to: "@ + message),
    }
}

/// What an insert into the `stats` table comes to: a failure is reported under
/// a message that names the table.
pub open spec fn stats_insert_result(outcome: Result<(), Seq<char>>) -> Result<(), Seq<char>> {
    match outcome {
        Ok(_) => Ok(()),
        Err(message) => Err("Failed to insert stats entry due to: "@ + message),
    }
}

/// The `stats` row to write back after one more visit of `id`: the row that
/// was read, with its count one higher. There is none where the lookup
/// failed or found no row.
pub open spec fn counted_visit(id: Seq<char>, found: Result<Option<StatsRow>, Seq<char>>) -> Result<
    StatsRow,
    Seq<char>,
> {
    match found {
        Ok(Some(row)) => Ok(StatsRow { id: row.id, visits_count: row.visits_count + 1 }),
        Ok(None) => Err(
            "Couldn't find entry for id '"@ + id
                + "' in stats table to increase visits_count"@,
        ),
        Err(message) => Err(message),
    }
}

/// Whether the count of the row that a lookup found can grow by one.
pub open spec fn can_count(found: Result<Option<StatsRow>, Seq<char>>) -> bool {
    found matches Ok(Some(row)) ==> row.visits_count < i32::MAX
}

/// Finds the short id in what a lookup by long URL answered: the id of the
/// row, if there is one. A failed lookup is not told apart from an empty one.
pub fn find_id(found: Result<Option<URLDBEntry>, String>) -> (id: Option<String>)
    ensures
        id.deep_view() == found_id(row_lookup_view(found)),
{
    match found {
        Ok(Some(entry)) => Some(entry.id),
        Ok(None) => None,
        Err(_) => None,
    }
}

/// Finds the long URL in what a lookup by short id answered: the URL of the
/// row, if there is one. A failed lookup is not told apart from an empty one.
pub fn find_url(found: Result<Option<URLDBEntry>, String>) -> (url: Option<String>)
    ensures
        url.deep_view() == found_url(row_lookup_view(found)),
{
    match found {
        Ok(Some(entry)) => Some(entry.long_url),
        Ok(None) => None,
        Err(_) => None,
    }
}

/// Judges an insert into the `urls` table: `Ok` if the row was written, else
/// the store's message behind a prefix that names the table.
pub fn insert_urls_entry(outcome: Result<(), String>) -> (result: Result<(), String>)
    ensures
        write_view(result) == urls_insert_result(write_view(outcome)),
{
    match outcome {
        Ok(_) => Ok(()),
        Err(err) => {
            let mut message = "Failed to insert urls entry due to: ".to_owned();
            message.append(err.as_str());
            Err(message)
        },
    }
}

/// Judges an insert into the `stats` table: `Ok` if the row was written, else
/// the store's message behind a prefix that names the table.
pub fn insert_stats_entry(outcome: Result<(), String>) -> (result: Result<(), String>)
    ensures
        write_view(result) == stats_insert_result(write_view(outcome)),
{
    match outcome {
        Ok(_) => Ok(()),
        Err(err) => {
            let mut message = "Failed to insert stats entry due to: ".to_owned();
            message.append(err.as_str());
            Err(message)
        },
    }
}

/// Counts one visit of `id`, given what the lookup of its `stats` row
/// answered: hands back the row to write, with the count one higher. Without
/// a row there is nothing to count, which is an error that names the id; a
/// lookup that failed is an error under the store's own message.
///
/// The count that was read must leave room for one more. Whether the visit
/// is counted in the end rests on the write of the row that is handed back.
pub fn increment_visits_count(id: &str, found: Result<Option<StatsEntry>, String>) -> (result:
    Result<StatsEntry, String>)
    requires
        can_count(stats_lookup_view(found)),
    ensures
        match result {
            Ok(entry) => counted_visit(id@, stats_lookup_view(found)) == Ok::<
                StatsRow,
                Seq<char>,
            >(entry@),
            Err(message) => counted_visit(id@, stats_lookup_view(found)) == Err::<
                StatsRow,
                Seq<char>,
            >(message@),
        },
{
    match found {
        Ok(Some(entry)) => Ok(StatsEntry { id: entry.id, visits_count: entry.visits_count + 1 }),
        Ok(None) => {
            let mut message = "Couldn't find entry for id '".to_owned();
            message.append(id);
            message.append("' in stats table to increase visits_count");
            Err(message)
        },
        Err(err) => Err(err),
    }
}

} // verus!
