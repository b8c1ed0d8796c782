//! Persistence planning: the timestamps a post is stored with, the
//! placement of downloaded temp files at their final paths, and the store
//! model under which resumability and atomicity hold.

use vstd::prelude::*;
use vstd::string::*;

use crate::file::ArchiveRequest;
use crate::file::RequestV;
use crate::file::TempFileMap;
use crate::file::request_url;

verus! {

/// What `chrono` computes for an RFC 3339 timestamp string: the UTC epoch
/// milliseconds, a function of the string alone, absent when the string
/// does not parse.
pub uninterp spec fn rfc3339_millis(s: Seq<char>) -> Option<i64>;

/// Relies on `chrono::DateTime::parse_from_rfc3339` with `to_utc` and
/// `timestamp_millis`: the parsed UTC timestamp depends on the string
/// alone.
#[verifier::external_body]
fn parse_rfc3339(date: &str) -> (r: Option<i64>)
    ensures
        r == rfc3339_millis(date@),
{
    match chrono::DateTime::parse_from_rfc3339(date) {
        Ok(dt) => Some(dt.to_utc().timestamp_millis()),
        Err(_) => None,
    }
}

/// The publish and update instants a post is stored with, parsed from the
/// artwork's creation and upload timestamps. `None` exactly when either
/// timestamp is not RFC 3339.
pub fn post_timestamps(create_date: &str, upload_date: &str) -> (r: Option<(i64, i64)>)
    ensures
        r is Some <==> rfc3339_millis(create_date@) is Some && rfc3339_millis(
            upload_date@,
        ) is Some,
        r matches Some(t) ==> Some(t.0) == rfc3339_millis(create_date@) && Some(t.1)
            == rfc3339_millis(upload_date@),
{
    match parse_rfc3339(create_date) {
        Some(published) => {
            match parse_rfc3339(upload_date) {
                Some(updated) => Some((published, updated)),
                None => None,
            }
        },
        None => None,
    }
}

// ---------------------------------------------------------------------------
// File placement
// ---------------------------------------------------------------------------

/// The move plan of one post's files against a resolved download mapping:
/// each file in order takes the temp file recorded for its request URL out
/// of the mapping and is placed at its final path. Absent exactly when some
/// file's URL has no remaining entry — then the post must not be committed.
pub open spec fn moves_plan(
    files: Seq<(Seq<char>, RequestV)>,
    m: Map<Seq<char>, Seq<char>>,
) -> Option<Seq<(Seq<char>, Seq<char>)>>
    decreases files.len(),
{
    if files.len() == 0 {
        Some(seq![])
    } else {
        let url = request_url(files[0].1);
        if m.contains_key(url) {
            match moves_plan(files.drop_first(), m.remove(url)) {
                Some(rest) => Some(seq![(m[url], files[0].0)] + rest),
                None => None,
            }
        } else {
            None
        }
    }
}

/// Plans the file placement of one post: pairs every final path with the
/// temp file downloaded for its request URL, consuming the mapping. `None`
/// exactly when some file has no remaining temp file — the caller must then
/// abort the post with nothing committed.
pub fn plan_file_moves(files: &Vec<(String, ArchiveRequest)>, map: TempFileMap) -> (r: Option<
    Vec<(String, String)>,
>)
    requires
        map.wf(),
    ensures
        r is Some <==> moves_plan(files.deep_view(), map@) is Some,
        r matches Some(v) ==> Some(v.deep_view()) == moves_plan(files.deep_view(), map@),
{
    let ghost m0 = map@;
    let mut remaining = map;
    let mut out: Vec<(String, String)> = Vec::new();
    let n = files.len();
    let mut i: usize = 0;
    proof {
        assert(files.deep_view().subrange(0, n as int) =~= files.deep_view());
    }
    while i < n
        invariant
            0 <= i <= n,
            n == files@.len(),
            n == files.deep_view().len(),
            m0 == map@,
            remaining.wf(),
            moves_plan(files.deep_view(), m0) == (match moves_plan(
                files.deep_view().subrange(i as int, n as int),
                remaining@,
            ) {
                Some(rest) => Some(out.deep_view() + rest),
                None => None::<Seq<(Seq<char>, Seq<char>)>>,
            }),
        decreases n - i,
    {
        let ghost dv = files.deep_view();
        let ghost suffix = dv.subrange(i as int, n as int);
        let ghost mv = remaining@;
        let url = files[i].1.url();
        let temp = remaining.remove(url);
        proof {
            assert(suffix[0] == dv[i as int]);
            assert(suffix.drop_first() =~= dv.subrange(i as int + 1, n as int));
        }
        match temp {
            Some(temp_path) => {
                let ghost prev = out.deep_view();
                out.push((temp_path, files[i].0.clone()));
                proof {
                    assert(out.deep_view() =~= prev.push((mv[url@], dv[i as int].0)));
                    assert(request_url(suffix[0].1) == url@);
                    // one planning step: the head file consumes its entry
                    assert(moves_plan(suffix, mv) == (match moves_plan(
                        suffix.drop_first(),
                        mv.remove(url@),
                    ) {
                        Some(rest) => Some(seq![(mv[url@], dv[i as int].0)] + rest),
                        None => None::<Seq<(Seq<char>, Seq<char>)>>,
                    }));
                    match moves_plan(dv.subrange(i as int + 1, n as int), remaining@) {
                        Some(rest) => {
                            assert(prev + (seq![(mv[url@], dv[i as int].0)] + rest)
                                =~= out.deep_view() + rest);
                        },
                        None => {},
                    }
                }
            },
            None => {
                proof {
                    assert(request_url(suffix[0].1) == url@);
                    assert(moves_plan(suffix, mv) is None);
                    assert(moves_plan(files.deep_view(), map@) is None);
                }
                return None;
            },
        }
        i += 1;
    }
    proof {
        assert(files.deep_view().subrange(n as int, n as int)
            =~= Seq::<(Seq<char>, RequestV)>::empty());
        assert(moves_plan(Seq::<(Seq<char>, RequestV)>::empty(), remaining@)
            == Some(Seq::<(Seq<char>, Seq<char>)>::empty()));
        assert(out.deep_view() + Seq::<(Seq<char>, Seq<char>)>::empty() =~= out.deep_view());
    }
    Some(out)
}

// ---------------------------------------------------------------------------
// The store model: resumability and atomicity
// ---------------------------------------------------------------------------

/// The archive store as the pipeline observes it: the set of source URLs
/// for which the existence check answers "present". A post becomes visible
/// only through a commit.
pub open spec fn store_after_unit(
    store: Set<Seq<char>>,
    source: Seq<char>,
    committed: bool,
) -> Set<Seq<char>> {
    if committed {
        store.insert(source)
    } else {
        store
    }
}

/// One run over a sequence of units, each a source URL paired with whether
/// every step of its persistence (download handshake, author resolution,
/// post sync, file placement, commit) succeeded. A unit whose source the
/// store already has is skipped at resolution and commits nothing; a unit
/// that failed commits nothing; a unit that succeeded commits its source.
pub open spec fn run_store(store: Set<Seq<char>>, units: Seq<(Seq<char>, bool)>) -> Set<
    Seq<char>,
>
    decreases units.len(),
{
    if units.len() == 0 {
        store
    } else {
        let source = units[0].0;
        let success = units[0].1;
        let next = if !store.contains(source) && success {
            store.insert(source)
        } else {
            store
        };
        run_store(next, units.drop_first())
    }
}

/// Atomicity: a post whose persistence fails at any point — file placement
/// failing partway included — is never committed, so the existence check
/// for its source URL still answers "absent" afterwards; no partial post is
/// visible.
pub proof fn lemma_failed_unit_leaves_no_post(
    store: Set<Seq<char>>,
    source: Seq<char>,
    committed: bool,
)
    requires
        !store.contains(source),
        !committed,
    ensures
        store_after_unit(store, source, committed) == store,
        !store_after_unit(store, source, committed).contains(source),
{
}

/// Idempotence: a run every one of whose unit sources the store already
/// has performs zero new commits — the store after the run is the store
/// before it. Running the pipeline twice with identical seeds therefore
/// leaves the second run with nothing to commit for the sources the first
/// run committed.
pub proof fn lemma_rerun_commits_nothing(store: Set<Seq<char>>, units: Seq<(Seq<char>, bool)>)
    requires
        forall|i: int| 0 <= i < units.len() ==> store.contains((#[trigger] units[i]).0),
    ensures
        run_store(store, units) == store,
    decreases units.len(),
{
    if units.len() > 0 {
        assert(store.contains(units[0].0));
        assert(forall|i: int|
            0 <= i < units.len() - 1 ==> (#[trigger] units.drop_first()[i]) == units[i + 1]);
        lemma_rerun_commits_nothing(store, units.drop_first());
    }
}

/// Atomicity over a whole run: when every unit carrying `source` failed
/// (its file placement failed partway, or any earlier step did), the
/// existence check for `source` still answers "absent" after the run — the
/// unit is retried from nothing on the next run.
pub proof fn lemma_failed_source_stays_absent(
    store: Set<Seq<char>>,
    units: Seq<(Seq<char>, bool)>,
    source: Seq<char>,
)
    requires
        !store.contains(source),
        forall|i: int|
            0 <= i < units.len() && (#[trigger] units[i]).0 == source ==> !units[i].1,
    ensures
        !run_store(store, units).contains(source),
    decreases units.len(),
{
    if units.len() > 0 {
        assert(forall|i: int|
            0 <= i < units.len() - 1 ==> (#[trigger] units.drop_first()[i]) == units[i + 1]);
        let next = if !store.contains(units[0].0) && units[0].1 {
            store.insert(units[0].0)
        } else {
            store
        };
        assert(!next.contains(source));
        lemma_failed_source_stays_absent(next, units.drop_first(), source);
    }
}

/// What a run adds: only sources of its own units ever become visible, so a
/// source no unit carries is untouched by the run.
pub proof fn lemma_run_adds_only_unit_sources(
    store: Set<Seq<char>>,
    units: Seq<(Seq<char>, bool)>,
    source: Seq<char>,
)
    requires
        forall|i: int| 0 <= i < units.len() ==> (#[trigger] units[i]).0 != source,
    ensures
        run_store(store, units).contains(source) == store.contains(source),
    decreases units.len(),
{
    if units.len() > 0 {
        assert(forall|i: int|
            0 <= i < units.len() - 1 ==> (#[trigger] units.drop_first()[i]) == units[i + 1]);
        let next = if !store.contains(units[0].0) && units[0].1 {
            store.insert(units[0].0)
        } else {
            store
        };
        lemma_run_adds_only_unit_sources(next, units.drop_first(), source);
    }
}

} // verus!
