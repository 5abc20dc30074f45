use url_shortener::error::ServiceError;
use url_shortener::handler::{
    create_valid_id, handle_get_short_url, start_shortening, Allocation, Pending, Reply, Request,
    Step,
};
use url_shortener::model::{AppState, StatsEntry, URLDBEntry, Url};
use url_shortener::store::MappingStore;

const BASE: &str = "https://sho.rt/";

fn state() -> AppState {
    AppState { base_url: BASE.to_string() }
}

fn text(long_url: &str) -> Url {
    Url { long_url: long_url.to_string() }
}

fn ids(list: &[&str]) -> Vec<String> {
    list.iter().map(|id| id.to_string()).collect()
}

fn row(id: &str, url: &str) -> URLDBEntry {
    URLDBEntry { id: id.to_string(), long_url: url.to_string() }
}

fn shorten(
    store: &mut MappingStore,
    long_url: &str,
    candidates: &[&str],
) -> Option<Result<String, ServiceError>> {
    store.serve(handle_get_short_url(&state(), &text(long_url)), &ids(candidates))
}

fn shorten_at_random(store: &mut MappingStore, long_url: &str) -> Result<String, ServiceError> {
    let mut step = handle_get_short_url(&state(), &text(long_url));
    loop {
        match step {
            Step::Finish(result) => return result,
            Step::Ask(pending) => {
                let reply = store.answer(pending.request());
                step = pending.resume(reply);
            }
        }
    }
}

fn allocating(candidate: &str) -> Pending {
    Pending::Allocating {
        base_url: BASE.to_string(),
        url: "https://example.com/a".to_string(),
        candidate: candidate.to_string(),
    }
}

#[test]
fn text_that_is_no_url_is_invalid_input() {
    let step = handle_get_short_url(&state(), &text("not a url"));
    assert_eq!(
        step,
        Step::Finish(Err(ServiceError::InvalidInput("relative URL without a base".to_string())))
    );
}

#[test]
fn invalid_input_creates_no_row() {
    let mut store = MappingStore::new();
    let outcome = shorten(&mut store, "not a url", &["abc"]);
    assert_eq!(
        outcome,
        Some(Err(ServiceError::InvalidInput("relative URL without a base".to_string())))
    );
    assert_eq!(store.urls_len(), 0);
    assert_eq!(store.stats_len(), 0);
}

#[test]
fn other_parser_messages_are_carried() {
    assert_eq!(
        handle_get_short_url(&state(), &text("https://")),
        Step::Finish(Err(ServiceError::InvalidInput("empty host".to_string())))
    );
    assert_eq!(
        handle_get_short_url(&state(), &text("https://example.com:99999/")),
        Step::Finish(Err(ServiceError::InvalidInput("invalid port number".to_string())))
    );
    assert_eq!(
        handle_get_short_url(&state(), &text("")),
        Step::Finish(Err(ServiceError::InvalidInput("relative URL without a base".to_string())))
    );
}

#[test]
fn url_is_first_looked_up_in_canonical_form() {
    let step = handle_get_short_url(&state(), &text("https://example.com/a"));
    assert_eq!(
        step,
        Step::Ask(Pending::Deduplicating {
            base_url: BASE.to_string(),
            url: "https://example.com/a".to_string(),
        })
    );
    match step {
        Step::Ask(pending) => {
            assert_eq!(pending.request(), Request::FindByUrl("https://example.com/a".to_string()))
        }
        Step::Finish(_) => unreachable!(),
    }
}

#[test]
fn canonical_form_gets_a_trailing_slash_and_lower_case_host() {
    assert_eq!(
        handle_get_short_url(&state(), &text("https://example.com")),
        Step::Ask(Pending::Deduplicating {
            base_url: BASE.to_string(),
            url: "https://example.com/".to_string(),
        })
    );
    assert_eq!(
        handle_get_short_url(&state(), &text("HTTPS://EXAMPLE.COM/Path?q=1#top")),
        Step::Ask(Pending::Deduplicating {
            base_url: BASE.to_string(),
            url: "https://example.com/Path?q=1#top".to_string(),
        })
    );
    assert_eq!(
        handle_get_short_url(&state(), &text("  http://example.com:80/a/../b  ")),
        Step::Ask(Pending::Deduplicating {
            base_url: BASE.to_string(),
            url: "http://example.com/b".to_string(),
        })
    );
}

#[test]
fn start_shortening_takes_the_parsed_text_as_given() {
    assert_eq!(
        start_shortening(&state(), Ok("https://example.com/a".to_string())),
        Step::Ask(Pending::Deduplicating {
            base_url: BASE.to_string(),
            url: "https://example.com/a".to_string(),
        })
    );
    assert_eq!(
        start_shortening(&state(), Err("empty host".to_string())),
        Step::Finish(Err(ServiceError::InvalidInput("empty host".to_string())))
    );
}

#[test]
fn new_url_gets_the_first_free_candidate() {
    let mut store = MappingStore::new();
    let outcome = shorten(&mut store, "https://example.com/a", &["abc", "def"]);
    assert_eq!(outcome, Some(Ok("https://sho.rt/abc".to_string())));
    assert_eq!(store.urls_len(), 1);
    assert_eq!(store.stats_len(), 1);
    assert_eq!(
        store.answer(Request::FindById("abc".to_string())),
        Reply::Row(Ok(Some(row("abc", "https://example.com/a"))))
    );
    assert_eq!(
        store.answer(Request::FindStats("abc".to_string())),
        Reply::Stats(Ok(Some(StatsEntry { id: "abc".to_string(), visits_count: 0 })))
    );
}

#[test]
fn shortening_twice_gives_the_same_id_and_one_row_each() {
    let mut store = MappingStore::new();
    let first = shorten(&mut store, "https://example.com/a", &["abc"]);
    let second = shorten(&mut store, "https://example.com/a", &["def"]);
    assert_eq!(first, Some(Ok("https://sho.rt/abc".to_string())));
    assert_eq!(second, first);
    assert_eq!(store.urls_len(), 1);
    assert_eq!(store.stats_len(), 1);
}

#[test]
fn repeated_url_needs_no_candidate() {
    let mut store = MappingStore::new();
    shorten(&mut store, "https://example.com/a", &["abc"]);
    assert_eq!(
        shorten(&mut store, "https://example.com/a", &[]),
        Some(Ok("https://sho.rt/abc".to_string()))
    );
}

#[test]
fn texts_with_one_canonical_form_share_an_id() {
    let mut store = MappingStore::new();
    let first = shorten(&mut store, "https://example.com", &["abc"]);
    let second = shorten(&mut store, "https://EXAMPLE.com/", &["def"]);
    assert_eq!(first, Some(Ok("https://sho.rt/abc".to_string())));
    assert_eq!(second, first);
    assert_eq!(store.urls_len(), 1);
}

#[test]
fn taken_candidate_is_passed_over() {
    let mut store = MappingStore::new();
    shorten(&mut store, "https://example.com/a", &["abc"]);
    let outcome = shorten(&mut store, "https://example.com/b", &["abc", "abc", "x", "y"]);
    assert_eq!(outcome, Some(Ok("https://sho.rt/x".to_string())));
    assert_eq!(store.urls_len(), 2);
    assert_eq!(store.stats_len(), 2);
    assert_eq!(
        store.answer(Request::FindById("abc".to_string())),
        Reply::Row(Ok(Some(row("abc", "https://example.com/a"))))
    );
    assert_eq!(
        store.answer(Request::FindById("x".to_string())),
        Reply::Row(Ok(Some(row("x", "https://example.com/b"))))
    );
}

#[test]
fn no_result_where_every_candidate_is_taken() {
    let mut store = MappingStore::new();
    shorten(&mut store, "https://example.com/a", &["abc"]);
    assert_eq!(shorten(&mut store, "https://example.com/b", &["abc", "abc"]), None);
    assert_eq!(shorten(&mut store, "https://example.com/b", &[]), None);
    assert_eq!(store.urls_len(), 1);
    assert_eq!(store.stats_len(), 1);
}

#[test]
fn ids_drawn_at_random_are_pairwise_distinct() {
    let mut store = MappingStore::new();
    let mut seen = std::collections::HashSet::new();
    for n in 0..400 {
        let short = shorten_at_random(&mut store, &format!("https://example.com/{}", n));
        let short = match short {
            Ok(short) => short,
            Err(error) => panic!("request {} failed: {:?}", n, error),
        };
        assert!(short.starts_with(BASE));
        let id = short[BASE.len()..].to_string();
        let length = id.chars().count();
        assert!(1 <= length && length <= 11);
        assert!(seen.insert(id), "id of request {} was issued before", n);
    }
    assert_eq!(store.urls_len(), 400);
    assert_eq!(store.stats_len(), 400);
}

#[test]
fn random_shortening_is_idempotent() {
    let mut store = MappingStore::new();
    let first = shorten_at_random(&mut store, "https://example.com/a");
    let second = shorten_at_random(&mut store, "https://example.com/a");
    assert!(first.is_ok());
    assert_eq!(first, second);
    assert_eq!(store.urls_len(), 1);
    assert_eq!(store.stats_len(), 1);
}

#[test]
fn base_url_is_used_as_given() {
    let mut store = MappingStore::new();
    let bare = AppState { base_url: "sho.rt".to_string() };
    let outcome =
        store.serve(handle_get_short_url(&bare, &text("https://example.com/a")), &ids(&["abc"]));
    assert_eq!(outcome, Some(Ok("sho.rtabc".to_string())));
    let empty = AppState { base_url: String::new() };
    let outcome =
        store.serve(handle_get_short_url(&empty, &text("https://example.com/a")), &ids(&[]));
    assert_eq!(outcome, Some(Ok("abc".to_string())));
}

#[test]
fn create_valid_id_accepts_a_free_candidate() {
    assert_eq!(
        create_valid_id("abc".to_string(), None, "def".to_string()),
        Allocation::Accepted("abc".to_string())
    );
}

#[test]
fn create_valid_id_moves_on_from_a_taken_candidate() {
    assert_eq!(
        create_valid_id(
            "abc".to_string(),
            Some("https://example.com/".to_string()),
            "def".to_string()
        ),
        Allocation::Retry("def".to_string())
    );
}

#[test]
fn url_without_id_leads_to_a_candidate_check() {
    let pending = Pending::Deduplicating {
        base_url: BASE.to_string(),
        url: "https://example.com/a".to_string(),
    };
    let reply = Reply::Row(Ok(None));
    assert!(pending.draws(&reply));
    let step = pending.resume_with(reply, "q7".to_string());
    assert_eq!(step, Step::Ask(allocating("q7")));
    match step {
        Step::Ask(pending) => assert_eq!(pending.request(), Request::FindById("q7".to_string())),
        Step::Finish(_) => unreachable!(),
    }
}

#[test]
fn failed_lookup_by_url_counts_as_no_row() {
    let pending = Pending::Deduplicating {
        base_url: BASE.to_string(),
        url: "https://example.com/a".to_string(),
    };
    let reply = Reply::Row(Err("connection lost".to_string()));
    assert!(pending.draws(&reply));
    assert_eq!(pending.resume_with(reply, "q7".to_string()), Step::Ask(allocating("q7")));
}

#[test]
fn url_with_id_ends_in_its_short_url() {
    let pending = Pending::Deduplicating {
        base_url: BASE.to_string(),
        url: "https://example.com/a".to_string(),
    };
    let reply = Reply::Row(Ok(Some(row("abc", "https://example.com/a"))));
    assert!(!pending.draws(&reply));
    assert_eq!(
        pending.resume_with(reply, "q7".to_string()),
        Step::Finish(Ok("https://sho.rt/abc".to_string()))
    );
}

#[test]
fn free_candidate_leads_to_the_urls_insert() {
    let reply = Reply::Row(Ok(None));
    assert!(!allocating("q7").draws(&reply));
    let step = allocating("q7").resume_with(reply, "zz".to_string());
    assert_eq!(
        step,
        Step::Ask(Pending::InsertingUrls {
            base_url: BASE.to_string(),
            entry: row("q7", "https://example.com/a"),
        })
    );
    match step {
        Step::Ask(pending) => assert_eq!(
            pending.request(),
            Request::InsertUrls(row("q7", "https://example.com/a"))
        ),
        Step::Finish(_) => unreachable!(),
    }
}

#[test]
fn failed_candidate_check_counts_as_free() {
    let reply = Reply::Row(Err("connection lost".to_string()));
    assert!(!allocating("q7").draws(&reply));
    assert_eq!(
        allocating("q7").resume_with(reply, "zz".to_string()),
        Step::Ask(Pending::InsertingUrls {
            base_url: BASE.to_string(),
            entry: row("q7", "https://example.com/a"),
        })
    );
}

#[test]
fn taken_candidate_leads_to_the_next_check() {
    let reply = Reply::Row(Ok(Some(row("q7", "https://example.org/"))));
    assert!(allocating("q7").draws(&reply));
    assert_eq!(allocating("q7").resume_with(reply, "zz".to_string()), Step::Ask(allocating("zz")));
}

#[test]
fn resume_draws_a_well_formed_candidate() {
    for _ in 0..200 {
        let reply = Reply::Row(Ok(Some(row("q7", "https://example.org/"))));
        match allocating("q7").resume(reply) {
            Step::Ask(Pending::Allocating { base_url, url, candidate }) => {
                assert_eq!(base_url, BASE);
                assert_eq!(url, "https://example.com/a");
                let length = candidate.chars().count();
                assert!(1 <= length && length <= 11);
                assert!(candidate
                    .chars()
                    .all(|c| c.is_ascii_alphanumeric() || c == '_' || c == '-'));
            }
            other => panic!("unexpected step {:?}", other),
        }
    }
}

#[test]
fn resume_without_a_draw_is_exact() {
    let reply = Reply::Row(Ok(None));
    assert_eq!(
        allocating("q7").resume(reply),
        Step::Ask(Pending::InsertingUrls {
            base_url: BASE.to_string(),
            entry: row("q7", "https://example.com/a"),
        })
    );
}

#[test]
fn failed_urls_insert_ends_the_request() {
    let pending = Pending::InsertingUrls {
        base_url: BASE.to_string(),
        entry: row("q7", "https://example.com/a"),
    };
    let step = pending.resume_with(Reply::Written(Err("duplicate key".to_string())), String::new());
    assert_eq!(
        step,
        Step::Finish(Err(ServiceError::PersistenceError(
            "Failed to insert urls entry due to: duplicate key".to_string()
        )))
    );
}

#[test]
fn urls_insert_is_followed_by_the_stats_insert() {
    let pending = Pending::InsertingUrls {
        base_url: BASE.to_string(),
        entry: row("q7", "https://example.com/a"),
    };
    let step = pending.resume_with(Reply::Written(Ok(())), String::new());
    assert_eq!(
        step,
        Step::Ask(Pending::InsertingStats {
            base_url: BASE.to_string(),
            entry: row("q7", "https://example.com/a"),
        })
    );
    match step {
        Step::Ask(pending) => assert_eq!(pending.request(), Request::InsertStats("q7".to_string())),
        Step::Finish(_) => unreachable!(),
    }
}

#[test]
fn failed_stats_insert_ends_the_request() {
    let pending = Pending::InsertingStats {
        base_url: BASE.to_string(),
        entry: row("q7", "https://example.com/a"),
    };
    let step = pending.resume_with(Reply::Written(Err("duplicate key".to_string())), String::new());
    assert_eq!(
        step,
        Step::Finish(Err(ServiceError::PersistenceError(
            "Failed to insert stats entry due to: duplicate key".to_string()
        )))
    );
}

#[test]
fn stats_insert_ends_in_the_short_url() {
    let pending = Pending::InsertingStats {
        base_url: BASE.to_string(),
        entry: row("q7", "https://example.com/a"),
    };
    assert_eq!(
        pending.resume_with(Reply::Written(Ok(())), String::new()),
        Step::Finish(Ok("https://sho.rt/q7".to_string()))
    );
}

#[test]
fn stats_row_left_behind_fails_the_request_and_keeps_the_url_row() {
    let mut store = MappingStore::new();
    store.answer(Request::InsertStats("abc".to_string()));
    let outcome = shorten(&mut store, "https://example.com/a", &["abc"]);
    assert_eq!(
        outcome,
        Some(Err(ServiceError::PersistenceError(
            "Failed to insert stats entry due to: a row with this id exists already".to_string()
        )))
    );
    assert_eq!(store.urls_len(), 1);
    assert_eq!(store.stats_len(), 1);
}

#[test]
fn answer_of_another_kind_changes_nothing() {
    let reply = Reply::Written(Ok(()));
    assert!(!allocating("q7").draws(&reply));
    assert_eq!(allocating("q7").resume_with(reply, "zz".to_string()), Step::Ask(allocating("q7")));
    let pending = Pending::InsertingUrls {
        base_url: BASE.to_string(),
        entry: row("q7", "https://example.com/a"),
    };
    assert_eq!(
        pending.resume_with(Reply::Row(Ok(None)), String::new()),
        Step::Ask(Pending::InsertingUrls {
            base_url: BASE.to_string(),
            entry: row("q7", "https://example.com/a"),
        })
    );
    let pending = Pending::Deduplicating {
        base_url: BASE.to_string(),
        url: "https://example.com/a".to_string(),
    };
    assert_eq!(
        pending.resume_with(Reply::Stats(Ok(None)), String::new()),
        Step::Ask(Pending::Deduplicating {
            base_url: BASE.to_string(),
            url: "https://example.com/a".to_string(),
        })
    );
}
