//! User expansion and author deduplication: the profile listing that turns
//! one user id into artwork identifiers, and the per-run cache that
//! guarantees each external author triggers at most one create-or-lookup
//! call against the archive store.

use vstd::prelude::*;
use vstd::string::*;

use crate::artwork::PixivArtworkId;
use crate::file::assoc_map;
use crate::file::distinct_keys;
use crate::file::lemma_assoc_map_at;
use crate::file::lemma_assoc_map_key;
use crate::text::all_dec_digits;
use crate::text::dec_digits;
use crate::text::dec_val;
use crate::text::parse_u64;
use crate::text::str_eq;
use crate::text::u64_to_dec;

verus! {

/// A platform user identifier.
pub type PixivUserId = u64;

/// The profile endpoint listing everything a user published.
pub open spec fn user_profile_url_spec(id: u64) -> Seq<char> {
    "https://www.pixiv.net/ajax/user/"@ + dec_digits(id as nat) + "/profile/all?lang=ja"@
}

/// Builds the profile endpoint of user `id`.
pub fn user_profile_url(id: u64) -> (r: String)
    ensures
        r@ == user_profile_url_spec(id),
{
    let mut s = String::from_str("https://www.pixiv.net/ajax/user/");
    s.append(u64_to_dec(id).as_str());
    s.append("/profile/all?lang=ja");
    s
}

/// The public page of the author with external id `user_id`, stored as the
/// author alias link.
pub open spec fn author_link_url_spec(user_id: Seq<char>) -> Seq<char> {
    "https://www.pixiv.net/users/"@ + user_id
}

/// Builds the public page of the author with external id `user_id`.
pub fn author_link_url(user_id: &str) -> (r: String)
    ensures
        r@ == author_link_url_spec(user_id@),
{
    let mut s = String::from_str("https://www.pixiv.net/users/");
    s.append(user_id);
    s
}

/// The profile listing of one user: the id sets of the published
/// illustrations, manga and text works, each absent when the user published
/// none of that kind.
#[derive(Debug)]
pub struct PixivUserArtworks {
    pub illusts: Option<Vec<String>>,
    pub manga: Option<Vec<String>>,
    pub novels: Option<Vec<String>>,
}

/// Whether every id of a key set is a decimal number that fits.
pub open spec fn all_parse(keys: Seq<Seq<char>>) -> bool {
    forall|i: int|
        0 <= i < keys.len() ==> {
            let w = #[trigger] keys[i];
            w.len() > 0 && all_dec_digits(w) && dec_val(w) <= u64::MAX
        }
}

/// The artwork identifiers of one key set, all tagged with one family.
pub open spec fn parsed_ids(keys: Seq<Seq<char>>, novel: bool) -> Seq<PixivArtworkId> {
    keys.map_values(
        |w: Seq<char>|
            if novel {
                PixivArtworkId::Novel(dec_val(w) as u64)
            } else {
                PixivArtworkId::Illust(dec_val(w) as u64)
            },
    )
}

/// The key set of an optional listing block, empty when absent.
pub open spec fn keys_or_empty(o: Option<Vec<String>>) -> Seq<Seq<char>> {
    match o {
        Some(keys) => keys.deep_view(),
        None => Seq::<Seq<char>>::empty(),
    }
}

fn parse_id_block(keys: &Option<Vec<String>>, novel: bool, out: &mut Vec<PixivArtworkId>) -> (ok:
    bool)
    ensures
        ok == all_parse(keys_or_empty(*keys)),
        ok ==> final(out)@ == old(out)@ + parsed_ids(keys_or_empty(*keys), novel),
{
    match keys {
        None => {
            proof {
                assert(old(out)@ + parsed_ids(keys_or_empty(*keys), novel) =~= old(out)@);
            }
            true
        },
        Some(ks) => {
            let n = ks.len();
            let mut i: usize = 0;
            while i < n
                invariant
                    0 <= i <= n,
                    n == ks@.len(),
                    n == ks.deep_view().len(),
                    keys_or_empty(*keys) == ks.deep_view(),
                    out@.len() == old(out)@.len() + i,
                    forall|j: int|
                        0 <= j < i ==> {
                            let w = #[trigger] ks.deep_view()[j];
                            w.len() > 0 && all_dec_digits(w) && dec_val(w) <= u64::MAX
                        },
                    forall|j: int| 0 <= j < old(out)@.len() ==> out@[j] == #[trigger] old(out)@[j],
                    forall|j: int|
                        0 <= j < i ==> out@[old(out)@.len() + j] == (if novel {
                            PixivArtworkId::Novel(dec_val(#[trigger] ks.deep_view()[j]) as u64)
                        } else {
                            PixivArtworkId::Illust(dec_val(#[trigger] ks.deep_view()[j]) as u64)
                        }),
                decreases n - i,
            {
                match parse_u64(ks[i].as_str()) {
                    Some(v) => {
                        if novel {
                            out.push(PixivArtworkId::Novel(v));
                        } else {
                            out.push(PixivArtworkId::Illust(v));
                        }
                    },
                    None => {
                        proof {
                            assert(keys_or_empty(*keys) == ks.deep_view());
                            let w = keys_or_empty(*keys)[i as int];
                            assert(w == ks@[i as int]@);
                            assert(!(w.len() > 0 && all_dec_digits(w) && dec_val(w)
                                <= u64::MAX));
                        }
                        return false;
                    },
                }
                i += 1;
            }
            proof {
                assert(out@ =~= old(out)@ + parsed_ids(keys_or_empty(*keys), novel));
            }
            true
        },
    }
}

impl PixivUserArtworks {
    /// The artwork identifiers of this profile listing: every illustration
    /// id, then every manga id, both tagged `Illust`, then every text-work
    /// id tagged `Novel`. `None` when some listed id is not a decimal
    /// number that fits.
    pub fn list(self) -> (r: Option<Vec<PixivArtworkId>>)
        ensures
            r is Some <==> all_parse(keys_or_empty(self.illusts)) && all_parse(
                keys_or_empty(self.manga),
            ) && all_parse(keys_or_empty(self.novels)),
            r matches Some(v) ==> v@ == parsed_ids(keys_or_empty(self.illusts), false)
                + parsed_ids(keys_or_empty(self.manga), false) + parsed_ids(
                keys_or_empty(self.novels),
                true,
            ),
    {
        let mut out: Vec<PixivArtworkId> = Vec::new();
        if !parse_id_block(&self.illusts, false, &mut out) {
            return None;
        }
        if !parse_id_block(&self.manga, false, &mut out) {
            return None;
        }
        if !parse_id_block(&self.novels, true, &mut out) {
            return None;
        }
        Some(out)
    }
}

// ---------------------------------------------------------------------------
// The per-run author-deduplication cache
// ---------------------------------------------------------------------------

/// The per-run author cache: maps an external user id to the durable author
/// id the store assigned it, so that each external author triggers at most
/// one create-or-lookup call per run.
#[derive(Debug)]
pub struct UserManager {
    /// The durable id of the platform the authors belong to.
    pub platform: u64,
    cached: Vec<(String, u64)>,
}

impl View for UserManager {
    type V = Map<Seq<char>, u64>;

    closed spec fn view(&self) -> Map<Seq<char>, u64> {
        assoc_map(self.cached.deep_view())
    }
}

impl UserManager {
    /// The representation invariant: one cache entry per external id.
    pub closed spec fn wf(&self) -> bool {
        distinct_keys(self.cached.deep_view())
    }

    /// The durable platform id this cache was opened for.
    pub closed spec fn platform_id(&self) -> u64 {
        self.platform
    }

    /// An empty cache for one run against `platform`.
    pub fn new(platform: u64) -> (r: UserManager)
        ensures
            r.wf(),
            r.platform_id() == platform,
            r@ == Map::<Seq<char>, u64>::empty(),
    {
        let r = UserManager { platform, cached: Vec::new() };
        proof {
            assert(r.cached.deep_view() =~= Seq::<(Seq<char>, u64)>::empty());
        }
        r
    }

    /// The author id cached for `user_id`, if this run resolved that
    /// external author before. `None` means the store must now be asked to
    /// create or look the author up — the one such call for this id.
    pub fn lookup(&self, user_id: &str) -> (r: Option<u64>)
        requires
            self.wf(),
        ensures
            match r {
                Some(author) => self@.contains_key(user_id@) && author == self@[user_id@],
                None => !self@.contains_key(user_id@),
            },
    {
        let n = self.cached.len();
        let mut i: usize = 0;
        while i < n
            invariant
                self.wf(),
                0 <= i <= n,
                n == self.cached@.len(),
                forall|j: int|
                    0 <= j < i ==> (#[trigger] self.cached.deep_view()[j]).0 != user_id@,
            decreases n - i,
        {
            if str_eq(self.cached[i].0.as_str(), user_id) {
                proof {
                    lemma_assoc_map_at(self.cached.deep_view(), i as int);
                }
                return Some(self.cached[i].1);
            }
            i += 1;
        }
        proof {
            lemma_assoc_map_key(self.cached.deep_view(), user_id@);
        }
        None
    }

    /// Records the author id the store assigned to `user_id`, after the one
    /// create-or-lookup call this run makes for that external id.
    pub fn record(&mut self, user_id: String, author: u64)
        requires
            old(self).wf(),
            !old(self)@.contains_key(user_id@),
        ensures
            final(self).wf(),
            final(self).platform_id() == old(self).platform_id(),
            final(self)@ == old(self)@.insert(user_id@, author),
    {
        proof {
            lemma_assoc_map_key(self.cached.deep_view(), user_id@);
        }
        let ghost before = self.cached.deep_view();
        self.cached.push((user_id, author));
        proof {
            let now = self.cached.deep_view();
            assert(now.drop_last() =~= before);
            assert(forall|j: int| 0 <= j < before.len() ==> (#[trigger] before[j]).0 != user_id@);
            assert(distinct_keys(now)) by {
                assert(forall|j: int| 0 <= j < now.len() - 1 ==> #[trigger] now[j] == before[j]);
            }
        }
    }
}

// ---------------------------------------------------------------------------
// Author deduplication, as a law of the cache discipline
// ---------------------------------------------------------------------------

/// The external ids on which the persistence stage calls the store, when it
/// processes `ids` in order and asks the store only on a cache miss: the
/// first occurrence of each distinct id.
pub open spec fn creates_for(ids: Seq<Seq<char>>) -> Seq<Seq<char>>
    decreases ids.len(),
{
    if ids.len() == 0 {
        seq![]
    } else if ids.drop_last().contains(ids.last()) {
        creates_for(ids.drop_last())
    } else {
        creates_for(ids.drop_last()).push(ids.last())
    }
}

proof fn lemma_creates_for_contains(ids: Seq<Seq<char>>, x: Seq<char>)
    ensures
        creates_for(ids).contains(x) <==> ids.contains(x),
    decreases ids.len(),
{
    if ids.len() > 0 {
        lemma_creates_for_contains(ids.drop_last(), x);
        if ids.drop_last().contains(ids.last()) {
            if ids.contains(x) {
                let i = choose|i: int| 0 <= i < ids.len() && ids[i] == x;
                if i < ids.len() - 1 {
                    assert(ids.drop_last()[i] == x);
                } else {
                    assert(ids.drop_last().contains(x));
                }
                assert(creates_for(ids).contains(x));
            }
            if creates_for(ids).contains(x) {
                let i = choose|i: int|
                    0 <= i < ids.drop_last().len() && ids.drop_last()[i] == x;
                assert(ids[i] == x);
            }
        } else {
            if ids.contains(x) {
                let i = choose|i: int| 0 <= i < ids.len() && ids[i] == x;
                if i < ids.len() - 1 {
                    assert(ids.drop_last()[i] == x);
                    assert(ids.drop_last().contains(x));
                    let c = creates_for(ids.drop_last());
                    let j = choose|j: int| 0 <= j < c.len() && c[j] == x;
                    assert(creates_for(ids)[j] == x);
                } else {
                    assert(creates_for(ids).last() == x);
                }
                assert(creates_for(ids).contains(x));
            }
            if creates_for(ids).contains(x) && !ids.drop_last().contains(x) {
                let c = creates_for(ids);
                let j = choose|j: int| 0 <= j < c.len() && c[j] == x;
                if j < c.len() - 1 {
                    assert(creates_for(ids.drop_last())[j] == x);
                } else {
                    assert(x == ids.last());
                }
                assert(ids.contains(x));
            }
        }
    }
}

/// Author deduplication: when the persistence stage processes sync units
/// whose author external ids are `ids`, asking the store only on a cache
/// miss, the store is called exactly once per distinct external id — the
/// calls carry pairwise distinct ids, and every processed id is covered by
/// one of them. In particular, for any number of units sharing one external
/// id, the author-creation call happens exactly once.
pub proof fn lemma_author_create_once(ids: Seq<Seq<char>>)
    ensures
        forall|i: int, j: int|
            0 <= i < j < creates_for(ids).len() ==> creates_for(ids)[i] != creates_for(ids)[j],
        forall|i: int| 0 <= i < ids.len() ==> creates_for(ids).contains(#[trigger] ids[i]),
        forall|i: int|
            0 <= i < creates_for(ids).len() ==> ids.contains(#[trigger] creates_for(ids)[i]),
    decreases ids.len(),
{
    if ids.len() > 0 {
        lemma_author_create_once(ids.drop_last());
        lemma_creates_for_contains(ids.drop_last(), ids.last());
        let c = creates_for(ids);
        let cp = creates_for(ids.drop_last());
        assert(forall|i: int| 0 <= i < ids.len() - 1 ==> #[trigger] ids[i] == ids.drop_last()[i]);
        if ids.drop_last().contains(ids.last()) {
            assert(c == cp);
            assert(c.contains(ids.last()));
            assert forall|i: int| 0 <= i < ids.len() implies c.contains(#[trigger] ids[i]) by {
                if i < ids.len() - 1 {
                    assert(cp.contains(ids.drop_last()[i]));
                }
            }
            assert forall|i: int| 0 <= i < c.len() implies ids.contains(#[trigger] c[i]) by {
                assert(ids.drop_last().contains(cp[i]));
                let j = choose|j: int| 0 <= j < ids.drop_last().len() && ids.drop_last()[j] == c[i];
                assert(ids[j] == c[i]);
            }
        } else {
            assert(c == cp.push(ids.last()));
            assert(forall|i: int| 0 <= i < cp.len() ==> #[trigger] c[i] == cp[i]);
            assert(c.last() == ids.last());
            assert forall|i: int, j: int| 0 <= i < j < c.len() implies c[i] != c[j] by {
                if j < c.len() - 1 {
                    assert(cp[i] != cp[j]);
                } else {
                    // the new entry was not seen before, while every earlier
                    // create was
                    assert(ids.drop_last().contains(cp[i]));
                    assert(c[j] == ids.last());
                }
            }
            assert forall|i: int| 0 <= i < ids.len() implies c.contains(#[trigger] ids[i]) by {
                if i < ids.len() - 1 {
                    assert(cp.contains(ids.drop_last()[i]));
                    let j = choose|j: int| 0 <= j < cp.len() && cp[j] == ids[i];
                    assert(c[j] == ids[i]);
                } else {
                    assert(c[c.len() - 1] == ids.last());
                }
            }
            assert forall|i: int| 0 <= i < c.len() implies ids.contains(#[trigger] c[i]) by {
                if i < c.len() - 1 {
                    assert(ids.drop_last().contains(cp[i]));
                    let j = choose|j: int|
                        0 <= j < ids.drop_last().len() && ids.drop_last()[j] == c[i];
                    assert(ids[j] == c[i]);
                } else {
                    assert(c[i] == ids.last());
                    assert(ids[ids.len() - 1] == ids.last());
                }
            }
        }
    }
}

} // verus!
