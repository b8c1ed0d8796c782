//! Current-user expansion: resolving the session's own user id, and the
//! offset-paginated listings of the favorite bookmarks and the follow list.

use vstd::prelude::*;
use vstd::string::*;

use crate::artwork::PixivArtworkId;
use crate::text::all_dec_digits;
use crate::text::dec_digits;
use crate::text::dec_val;
use crate::text::parse_u64;
use crate::text::u64_to_dec;

verus! {

/// The settings endpoint that reports the session's own numeric user id.
pub fn settings_url() -> (r: &'static str)
    ensures
        r@ == "https://www.pixiv.net/ajax/settings/self?lang=zh_tw"@,
{
    "https://www.pixiv.net/ajax/settings/self?lang=zh_tw"
}

/// The user-status block of the settings response.
#[derive(Debug, Clone, Copy, PartialEq, Eq, Structural)]
pub struct PixivUserStatus {
    pub user_id: u64,
}

/// The settings response envelope body.
#[derive(Debug, Clone, Copy, PartialEq, Eq, Structural)]
pub struct PixivUserStatusOuter {
    pub user_status: PixivUserStatus,
}

/// The pagination state of an offset-indexed listing (favorite bookmarks
/// and the follow list, fixed page size 100). The listing issues a request,
/// learns the reported total, and continues while the offset of the page
/// just fetched does not exceed that total.
#[derive(Debug, Clone, Copy)]
pub struct OffsetPager {
    /// Requests already issued.
    pub page: u64,
    /// The total the last response reported; provisionally one, so that the
    /// first request is always issued.
    pub total: u64,
}

/// The fixed page size of the offset-indexed listings.
pub open spec fn offset_page_limit() -> u64 {
    100
}

impl OffsetPager {
    /// Whether another page request is due: before the first request always,
    /// afterwards while the offset of the last fetched page has not passed
    /// the reported total.
    pub open spec fn has_more_spec(&self) -> bool {
        self.page == 0 || (self.page - 1) * offset_page_limit() <= self.total
    }

    /// The offset the next request carries.
    pub open spec fn next_offset_spec(&self) -> int {
        self.page * offset_page_limit()
    }

    /// A fresh pager: no page fetched, provisional total of one.
    pub fn new() -> (r: OffsetPager)
        ensures
            r.page == 0,
            r.total == 1,
            r.has_more_spec(),
    {
        OffsetPager { page: 0, total: 1 }
    }

    /// Whether another page request is due.
    pub fn has_more(&self) -> (r: bool)
        ensures
            r == self.has_more_spec(),
    {
        if self.page == 0 {
            true
        } else {
            proof {
                let p = self.page as int;
                assert((p - 1) * 100 <= 0xffffffffffffffff * 100) by (nonlinear_arith)
                    requires
                        1 <= p <= 0xffffffffffffffff,
                ;
            }
            (self.page as u128 - 1) * 100 <= self.total as u128
        }
    }

    /// Advances past the next page and yields the offset its request
    /// carries: the page size times the number of pages already fetched.
    pub fn advance(&mut self) -> (offset: u64)
        requires
            old(self).has_more_spec(),
            old(self).total <= u64::MAX - 200,
        ensures
            final(self).page == old(self).page + 1,
            final(self).total == old(self).total,
            offset == old(self).next_offset_spec(),
    {
        proof {
            let p = self.page as int;
            let t = self.total as int;
            if p >= 1 {
                assert(p * 100 <= t + 100) by (nonlinear_arith)
                    requires
                        (p - 1) * 100 <= t,
                ;
            }
        }
        let offset: u64 = self.page * 100;
        self.page = self.page + 1;
        offset
    }

    /// Records the total the fetched page reported.
    pub fn apply_total(&mut self, total: u64)
        ensures
            final(self).page == old(self).page,
            final(self).total == total,
    {
        self.total = total;
    }
}

/// Which bookmark listing a favorite expansion walks.
#[derive(Debug, Clone, Copy, PartialEq, Eq, Structural)]
pub enum FavoriteKind {
    Illusts,
    Novels,
}

/// The bookmark-listing endpoint of `user` at `offset`.
pub open spec fn favorite_page_url_spec(user: u64, kind: FavoriteKind, offset: u64) -> Seq<char> {
    "https://www.pixiv.net/ajax/user/"@ + dec_digits(user as nat) + "/"@ + (match kind {
        FavoriteKind::Illusts => "illusts"@,
        FavoriteKind::Novels => "novels"@,
    }) + "/bookmarks?tag=&offset="@ + dec_digits(offset as nat) + "&limit=100&rest=show"@
}

/// Builds the bookmark-listing endpoint of `user` at `offset`.
pub fn favorite_page_url(user: u64, kind: FavoriteKind, offset: u64) -> (r: String)
    ensures
        r@ == favorite_page_url_spec(user, kind, offset),
{
    let mut s = String::from_str("https://www.pixiv.net/ajax/user/");
    s.append(u64_to_dec(user).as_str());
    s.append("/");
    match kind {
        FavoriteKind::Illusts => s.append("illusts"),
        FavoriteKind::Novels => s.append("novels"),
    }
    s.append("/bookmarks?tag=&offset=");
    s.append(u64_to_dec(offset).as_str());
    s.append("&limit=100&rest=show");
    s
}

/// The follow-listing endpoint of `user` at `offset`.
pub open spec fn following_page_url_spec(user: u64, offset: u64) -> Seq<char> {
    "https://www.pixiv.net/ajax/user/"@ + dec_digits(user as nat)
        + "/following?tag=&offset="@ + dec_digits(offset as nat) + "&limit=100&rest=show"@
}

/// Builds the follow-listing endpoint of `user` at `offset`.
pub fn following_page_url(user: u64, offset: u64) -> (r: String)
    ensures
        r@ == following_page_url_spec(user, offset),
{
    let mut s = String::from_str("https://www.pixiv.net/ajax/user/");
    s.append(u64_to_dec(user).as_str());
    s.append("/following?tag=&offset=");
    s.append(u64_to_dec(offset).as_str());
    s.append("&limit=100&rest=show");
    s
}

/// The id field of one bookmarked work: a string for a reachable work, a
/// bare number for a work the platform reports as unreachable.
#[derive(Debug)]
pub enum PixivFavoriteWorkId {
    Common(String),
    Unreachable(u64),
}

/// The mathematical value of a bookmarked work's id field.
pub enum FavoriteIdV {
    Common(Seq<char>),
    Unreachable(u64),
}

impl View for PixivFavoriteWorkId {
    type V = FavoriteIdV;

    open spec fn view(&self) -> FavoriteIdV {
        match self {
            PixivFavoriteWorkId::Common(s) => FavoriteIdV::Common(s@),
            PixivFavoriteWorkId::Unreachable(n) => FavoriteIdV::Unreachable(*n),
        }
    }
}

impl DeepView for PixivFavoriteWorkId {
    type V = FavoriteIdV;

    open spec fn deep_view(&self) -> FavoriteIdV {
        self@
    }
}

/// One bookmarked work.
#[derive(Debug)]
pub struct PixivFavoriteWork {
    pub id: PixivFavoriteWorkId,
}

impl View for PixivFavoriteWork {
    type V = FavoriteIdV;

    open spec fn view(&self) -> FavoriteIdV {
        self.id@
    }
}

impl DeepView for PixivFavoriteWork {
    type V = FavoriteIdV;

    open spec fn deep_view(&self) -> FavoriteIdV {
        self@
    }
}

/// One page of a bookmark listing.
#[derive(Debug)]
pub struct PixivFavorite {
    pub total: u64,
    pub works: Vec<PixivFavoriteWork>,
}

/// The id strings of the reachable bookmarked works, in listing order:
/// an entry whose id field is a bare numeric sentinel is skipped.
pub open spec fn reachable_favorites(s: Seq<FavoriteIdV>) -> Seq<Seq<char>>
    decreases s.len(),
{
    if s.len() == 0 {
        seq![]
    } else {
        let rest = reachable_favorites(s.drop_first());
        match s[0] {
            FavoriteIdV::Common(id) => seq![id] + rest,
            FavoriteIdV::Unreachable(_) => rest,
        }
    }
}

pub proof fn lemma_reachable_favorites_append(a: Seq<FavoriteIdV>, b: Seq<FavoriteIdV>)
    ensures
        reachable_favorites(a + b) == reachable_favorites(a) + reachable_favorites(b),
    decreases a.len(),
{
    if a.len() == 0 {
        assert(a + b =~= b);
        assert(reachable_favorites(a) + reachable_favorites(b) =~= reachable_favorites(b));
    } else {
        lemma_reachable_favorites_append(a.drop_first(), b);
        assert((a + b).drop_first() =~= a.drop_first() + b);
        assert((a + b)[0] == a[0]);
        match a[0] {
            FavoriteIdV::Common(id) => {
                assert(seq![id] + (reachable_favorites(a.drop_first()) + reachable_favorites(b))
                    =~= (seq![id] + reachable_favorites(a.drop_first())) + reachable_favorites(
                    b,
                ));
            },
            FavoriteIdV::Unreachable(_) => {},
        }
    }
}

/// An unreachable favorite is never enqueued: the artwork identifiers of
/// one bookmark page are the parsed ids of its reachable works only, each
/// tagged with the family of the listing being walked. `None` when a
/// reachable work's id is not a decimal number that fits.
pub fn favorite_artwork_ids(works: &Vec<PixivFavoriteWork>, kind: FavoriteKind) -> (r: Option<
    Vec<PixivArtworkId>,
>)
    ensures
        ({
            let kept = reachable_favorites(works.deep_view());
            &&& r is Some <==> (forall|i: int|
                0 <= i < kept.len() ==> {
                    let w = #[trigger] kept[i];
                    w.len() > 0 && all_dec_digits(w) && dec_val(w) <= u64::MAX
                })
            &&& r matches Some(v) ==> {
                &&& v@.len() == kept.len()
                &&& forall|i: int|
                    0 <= i < kept.len() ==> #[trigger] v@[i] == (match kind {
                        FavoriteKind::Illusts => PixivArtworkId::Illust(dec_val(kept[i]) as u64),
                        FavoriteKind::Novels => PixivArtworkId::Novel(dec_val(kept[i]) as u64),
                    })
            }
        }),
{
    let mut out: Vec<PixivArtworkId> = Vec::new();
    let n = works.len();
    let mut i: usize = 0;
    proof {
        assert(works.deep_view().subrange(0, 0) =~= Seq::<FavoriteIdV>::empty());
    }
    while i < n
        invariant
            0 <= i <= n,
            n == works@.len(),
            n == works.deep_view().len(),
            ({
                let kept = reachable_favorites(works.deep_view().subrange(0, i as int));
                &&& out@.len() == kept.len()
                &&& forall|j: int|
                    0 <= j < kept.len() ==> {
                        let w = #[trigger] kept[j];
                        w.len() > 0 && all_dec_digits(w) && dec_val(w) <= u64::MAX
                    }
                &&& forall|j: int|
                    0 <= j < kept.len() ==> #[trigger] out@[j] == (match kind {
                        FavoriteKind::Illusts => PixivArtworkId::Illust(dec_val(kept[j]) as u64),
                        FavoriteKind::Novels => PixivArtworkId::Novel(dec_val(kept[j]) as u64),
                    })
            }),
        decreases n - i,
    {
        let ghost dv = works.deep_view();
        let ghost prefix = dv.subrange(0, i as int);
        proof {
            lemma_reachable_favorites_append(prefix, seq![dv[i as int]]);
            assert(dv.subrange(0, i as int + 1) =~= prefix + seq![dv[i as int]]);
            assert(seq![dv[i as int]].drop_first() =~= Seq::<FavoriteIdV>::empty());
            assert(reachable_favorites(Seq::<FavoriteIdV>::empty()) =~= Seq::<Seq<char>>::empty());
        }
        match &works[i].id {
            PixivFavoriteWorkId::Common(id) => {
                proof {
                    assert(reachable_favorites(seq![dv[i as int]]) =~= seq![id@]);
                }
                match parse_u64(id.as_str()) {
                    Some(v) => {
                        match kind {
                            FavoriteKind::Illusts => out.push(PixivArtworkId::Illust(v)),
                            FavoriteKind::Novels => out.push(PixivArtworkId::Novel(v)),
                        }
                    },
                    None => {
                        proof {
                            let kept = reachable_favorites(dv);
                            let bad = prefix.len();
                            assert(dv =~= dv.subrange(0, i as int + 1) + dv.subrange(
                                i as int + 1,
                                n as int,
                            ));
                            lemma_reachable_favorites_append(
                                dv.subrange(0, i as int + 1),
                                dv.subrange(i as int + 1, n as int),
                            );
                            assert(kept[reachable_favorites(prefix).len() as int] == id@);
                        }
                        return None;
                    },
                }
            },
            PixivFavoriteWorkId::Unreachable(_) => {
                proof {
                    assert(reachable_favorites(seq![dv[i as int]]) =~= Seq::<Seq<char>>::empty());
                    assert(reachable_favorites(dv.subrange(0, i as int + 1)) =~= reachable_favorites(
                        prefix,
                    ));
                }
            },
        }
        i += 1;
    }
    proof {
        assert(works.deep_view().subrange(0, n as int) =~= works.deep_view());
    }
    Some(out)
}

/// One followed user.
#[derive(Debug, Clone, Copy, PartialEq, Eq, Structural)]
pub struct PixivFollowingUser {
    pub user_id: u64,
}

/// One page of the follow listing.
#[derive(Debug)]
pub struct PixivFollowing {
    pub total: u64,
    pub users: Vec<PixivFollowingUser>,
}

} // verus!
