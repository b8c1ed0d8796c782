use std::collections::HashSet;

use pixiv_archive::archive::plan_file_moves;
use pixiv_archive::archive::post_timestamps;
use pixiv_archive::artwork::PixivArtworkId;
use pixiv_archive::file::ArchiveRequest;
use pixiv_archive::file::TempFileMap;
use pixiv_archive::user::UserManager;

fn files(urls: &[&str]) -> Vec<(String, ArchiveRequest)> {
    urls.iter()
        .enumerate()
        .map(|(i, u)| {
            (
                format!("/archive/post/{i}"),
                ArchiveRequest::Image(String::from(*u)),
            )
        })
        .collect()
}

#[test]
fn file_moves_planned_in_order() {
    let mut map = TempFileMap::new();
    map.insert(String::from("u1"), String::from("/tmp/t1"));
    map.insert(String::from("u2"), String::from("/tmp/t2"));
    let plan = plan_file_moves(&files(&["u1", "u2"]), map).unwrap();
    assert_eq!(
        plan,
        vec![
            (String::from("/tmp/t1"), String::from("/archive/post/0")),
            (String::from("/tmp/t2"), String::from("/archive/post/1")),
        ]
    );
}

/// Atomicity: when a file's temp download is missing, no plan is produced,
/// so the caller aborts the post with nothing committed and the source URL
/// stays absent from the store.
#[test]
fn missing_temp_file_aborts_the_plan() {
    let mut map = TempFileMap::new();
    map.insert(String::from("u1"), String::from("/tmp/t1"));
    assert!(plan_file_moves(&files(&["u1", "u2"]), map).is_none());
}

#[test]
fn duplicate_request_urls_consume_the_single_entry() {
    let mut map = TempFileMap::new();
    map.insert(String::from("u1"), String::from("/tmp/t1"));
    // the second file asks for the same URL after the first consumed it
    assert!(plan_file_moves(&files(&["u1", "u1"]), map).is_none());
}

#[test]
fn empty_post_has_an_empty_plan() {
    let plan = plan_file_moves(&Vec::new(), TempFileMap::new()).unwrap();
    assert!(plan.is_empty());
}

#[test]
fn timestamps_parse_as_rfc3339_utc() {
    let t = post_timestamps("2021-06-01T12:00:00+00:00", "2021-06-01T13:30:00+09:00").unwrap();
    assert_eq!(t.0, 1622548800000);
    // 13:30 at UTC+9 is 04:30 UTC
    assert_eq!(t.1, 1622521800000);
}

#[test]
fn invalid_timestamp_rejected() {
    assert!(post_timestamps("2021-06-01", "2021-06-01T12:00:00+00:00").is_none());
    assert!(post_timestamps("2021-06-01T12:00:00+00:00", "yesterday").is_none());
}

/// Dedup: for several sync units sharing one author external id, the
/// create-or-lookup call against the store happens exactly once.
#[test]
fn author_created_once_per_external_id() {
    let mut cache = UserManager::new(1);
    let unit_authors = ["77", "77", "88", "77", "88"];
    let mut store_calls: Vec<String> = Vec::new();
    let mut next_author: u64 = 100;
    for id in unit_authors {
        match cache.lookup(id) {
            Some(_) => {},
            None => {
                // the one store call for this external id
                store_calls.push(String::from(id));
                cache.record(String::from(id), next_author);
                next_author += 1;
            },
        }
    }
    assert_eq!(store_calls, vec![String::from("77"), String::from("88")]);
    assert_eq!(cache.lookup("77"), Some(100));
    assert_eq!(cache.lookup("88"), Some(101));
    assert_eq!(cache.lookup("99"), None);
}

/// Idempotence: a second run over the same seeds, against a store that
/// already has every source of the first run, performs zero new commits.
#[test]
fn second_run_commits_nothing() {
    let seeds = [
        PixivArtworkId::Illust(1),
        PixivArtworkId::Novel(2),
        PixivArtworkId::Illust(3),
    ];
    let mut store: HashSet<String> = HashSet::new();

    // first run: every unit succeeds and commits its source
    let mut first_commits = 0usize;
    for id in seeds {
        let source = id.url();
        if !store.contains(&source) {
            store.insert(source);
            first_commits += 1;
        }
    }
    assert_eq!(first_commits, 3);

    // second run with identical seeds: every source is already present,
    // so resolution skips each unit and nothing is committed
    let before = store.clone();
    let mut second_commits = 0usize;
    for id in seeds {
        let source = id.url();
        if !store.contains(&source) {
            store.insert(source);
            second_commits += 1;
        }
    }
    assert_eq!(second_commits, 0);
    assert_eq!(store, before);
}
