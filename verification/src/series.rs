//! Series expansion: the paginated listing that turns one series identifier
//! into its artwork identifiers, with a fixed page size per series family
//! and termination against the server-reported total.

use vstd::prelude::*;
use vstd::string::*;

use crate::artwork::PixivArtworkId;
use crate::text::all_dec_digits;
use crate::text::dec_digits;
use crate::text::dec_val;
use crate::text::parse_u64;
use crate::text::u64_to_dec;

verus! {

/// Identifies one series of artworks, of either family.
#[derive(Debug, Clone, Copy, PartialEq, Eq, Hash, Structural)]
pub enum PixivSeriesId {
    Illust(u64),
    Novel(u64),
}

/// The public page of a series.
pub open spec fn series_source_url(id: PixivSeriesId) -> Seq<char> {
    match id {
        PixivSeriesId::Illust(n) => "https://www.pixiv.net/series/"@ + dec_digits(n as nat),
        PixivSeriesId::Novel(n) => "https://www.pixiv.net/novel/series/"@ + dec_digits(n as nat),
    }
}

impl PixivSeriesId {
    /// The numeric identifier, whichever family the series belongs to.
    pub fn id(&self) -> (r: u64)
        ensures
            *self == PixivSeriesId::Illust(r) || *self == PixivSeriesId::Novel(r),
    {
        match self {
            PixivSeriesId::Illust(id) => *id,
            PixivSeriesId::Novel(id) => *id,
        }
    }

    /// The public page of this series.
    pub fn url(&self) -> (r: String)
        ensures
            r@ == series_source_url(*self),
    {
        match self {
            PixivSeriesId::Illust(id) => {
                let mut s = String::from_str("https://www.pixiv.net/series/");
                s.append(u64_to_dec(*id).as_str());
                s
            },
            PixivSeriesId::Novel(id) => {
                let mut s = String::from_str("https://www.pixiv.net/novel/series/");
                s.append(u64_to_dec(*id).as_str());
                s
            },
        }
    }
}

/// One listed work of an illustration series.
#[derive(Debug, Clone)]
pub struct PixivIllustSeriesPageWork {
    pub work_id: String,
}

/// One listed work of a text-work series.
#[derive(Debug, Clone)]
pub struct PixivNovelSeriesPageWork {
    pub id: String,
}

/// One page of a series listing: the reported total and the works of this
/// page, in whichever of the two shapes the family uses.
#[derive(Debug, Clone)]
pub struct PixivSeriesPage {
    pub total: u64,
    pub series: Vec<PixivIllustSeriesPageWork>,
    pub series_contents: Vec<PixivNovelSeriesPageWork>,
}

/// A series-listing response.
#[derive(Debug, Clone)]
pub struct PixivSeries {
    pub page: PixivSeriesPage,
}

/// The page size of a series listing: 12 for illustration series, 30 for
/// text-work series.
pub open spec fn series_page_limit(id: PixivSeriesId) -> u64 {
    match id {
        PixivSeriesId::Illust(_) => 12,
        PixivSeriesId::Novel(_) => 30,
    }
}

/// The listing endpoint of page `page` (1-based): illustration-series pages
/// are indexed by page number, text-series pages by a running offset.
pub open spec fn series_page_url_spec(id: PixivSeriesId, page: u64) -> Seq<char>
    recommends
        page >= 1,
{
    match id {
        PixivSeriesId::Illust(n) => "https://www.pixiv.net/ajax/series/"@ + dec_digits(n as nat)
            + "?lang=ja&p="@ + dec_digits(page as nat),
        PixivSeriesId::Novel(n) => "https://www.pixiv.net/ajax/novel/series_content/"@
            + dec_digits(n as nat) + "?lang=ja&last_order="@ + dec_digits(
            ((page - 1) * series_page_limit(id)) as nat,
        ) + "&order_by=asc"@,
    }
}

/// The pagination state of one series expansion. Starting from page zero and
/// a provisional total of one, the pager issues page requests while
/// `page * limit < total` and learns the real total from each response.
#[derive(Debug, Clone, Copy)]
pub struct SeriesPager {
    pub series: PixivSeriesId,
    pub page: u64,
    pub total: u64,
}

impl SeriesPager {
    /// Whether another page request is due.
    pub open spec fn has_more_spec(&self) -> bool {
        self.page * series_page_limit(self.series) < self.total
    }

    /// A fresh pager for `series`: no page fetched yet, and a provisional
    /// total of one so that the first request is always issued.
    pub fn new(series: PixivSeriesId) -> (r: SeriesPager)
        ensures
            r.series == series,
            r.page == 0,
            r.total == 1,
            r.has_more_spec(),
    {
        let r = SeriesPager { series, page: 0, total: 1 };
        r
    }

    /// Whether another page request is due: the cumulative capacity of the
    /// pages fetched so far has not reached the reported total.
    pub fn has_more(&self) -> (r: bool)
        ensures
            r == self.has_more_spec(),
    {
        let limit: u64 = match self.series {
            PixivSeriesId::Illust(_) => 12,
            PixivSeriesId::Novel(_) => 30,
        };
        proof {
            let p = self.page as int;
            let l = limit as int;
            assert(p * l <= 0xffffffffffffffff * 0xffffffffffffffff) by (nonlinear_arith)
                requires
                    0 <= p <= 0xffffffffffffffff,
                    0 <= l <= 0xffffffffffffffff,
            ;
        }
        (self.page as u128) * (limit as u128) < self.total as u128
    }

    /// Advances to the next page and yields its listing endpoint.
    pub fn next_request(&mut self) -> (r: String)
        requires
            old(self).has_more_spec(),
        ensures
            final(self).series == old(self).series,
            final(self).total == old(self).total,
            final(self).page == old(self).page + 1,
            r@ == series_page_url_spec(old(self).series, (old(self).page + 1) as u64),
    {
        proof {
            // page * limit < total <= u64::MAX and limit >= 1, so both the
            // incremented page and the novel-series offset fit in a u64
            let p = old(self).page as int;
            let l = series_page_limit(old(self).series) as int;
            assert(p * l >= p) by (nonlinear_arith)
                requires
                    l >= 1,
                    p >= 0,
            ;
        }
        self.page = self.page + 1;
        match self.series {
            PixivSeriesId::Illust(id) => {
                let mut s = String::from_str("https://www.pixiv.net/ajax/series/");
                s.append(u64_to_dec(id).as_str());
                s.append("?lang=ja&p=");
                s.append(u64_to_dec(self.page).as_str());
                s
            },
            PixivSeriesId::Novel(id) => {
                let offset: u64 = (self.page - 1) * 30;
                let mut s = String::from_str("https://www.pixiv.net/ajax/novel/series_content/");
                s.append(u64_to_dec(id).as_str());
                s.append("?lang=ja&last_order=");
                s.append(u64_to_dec(offset).as_str());
                s.append("&order_by=asc");
                s
            },
        }
    }

    /// Records the total the fetched page reported.
    pub fn apply_total(&mut self, total: u64)
        ensures
            final(self).series == old(self).series,
            final(self).page == old(self).page,
            final(self).total == total,
    {
        self.total = total;
    }
}

/// How many page requests a series expansion issues when every response
/// reports the same total: at least one (the provisional total forces the
/// first request), and beyond that one request per started page of the
/// reported total.
pub open spec fn series_request_count(total: nat, limit: nat) -> nat
    recommends
        limit > 0,
{
    if total == 0 {
        1
    } else {
        ((total + limit - 1) / limit as int) as nat
    }
}

/// Pagination termination. When every fetched page reports total `total`,
/// the `i`-th request (1-based) is issued exactly when
/// `i <= series_request_count(total, limit)` — the pager's continue
/// condition before the `i`-th request is `(i-1) * limit < total`, with the
/// provisional total making the first request unconditional — and after the
/// last request the pager stops: `count * limit >= total`.
pub proof fn lemma_pagination_request_count(total: nat, limit: nat, i: nat)
    requires
        limit > 0,
        i >= 1,
    ensures
        (i == 1 || (i - 1) * limit < total) <==> i <= series_request_count(total, limit),
        series_request_count(total, limit) * limit >= total,
{
    let k = series_request_count(total, limit);
    if total == 0 {
        assert(k == 1);
        if i >= 2 {
            assert((i - 1) * limit >= 1 * limit) by (nonlinear_arith)
                requires
                    i >= 2,
                    limit > 0,
            ;
        }
    } else {
        assert(k == (total + limit - 1) / limit as int);
        assert(k * limit >= total && (k - 1) * limit < total) by (nonlinear_arith)
            requires
                limit > 0,
                total > 0,
                k == (total + limit - 1) / limit as int,
        ;
        assert(k >= 1) by (nonlinear_arith)
            requires
                limit > 0,
                total > 0,
                k * limit >= total,
        ;
        if i >= 2 {
            if (i - 1) * limit < total {
                // i - 1 started pages do not reach the total, so i <= k
                assert(i <= k) by (nonlinear_arith)
                    requires
                        limit > 0,
                        (i - 1) * limit < total,
                        k * limit >= total,
                ;
            }
            if i <= k {
                assert((i - 1) * limit < total) by (nonlinear_arith)
                    requires
                        limit > 0,
                        i <= k,
                        i >= 2,
                        (k - 1) * limit < total,
                ;
            }
        }
    }
}

/// The artwork identifiers of one series page: every listed illustration
/// work tagged `Illust`, then every listed text work tagged `Novel`. `None`
/// when some listed identifier is not a decimal number that fits.
pub fn series_page_works(page: &PixivSeriesPage) -> (r: Option<Vec<PixivArtworkId>>)
    ensures
        r is Some <==> (forall|i: int|
            0 <= i < page.series@.len() ==> {
                let w = (#[trigger] page.series@[i]).work_id@;
                w.len() > 0 && all_dec_digits(w) && dec_val(w) <= u64::MAX
            }) && (forall|i: int|
            0 <= i < page.series_contents@.len() ==> {
                let w = (#[trigger] page.series_contents@[i]).id@;
                w.len() > 0 && all_dec_digits(w) && dec_val(w) <= u64::MAX
            }),
        r matches Some(v) ==> {
            &&& v@.len() == page.series@.len() + page.series_contents@.len()
            &&& forall|i: int|
                0 <= i < page.series@.len() ==> #[trigger] v@[i] == PixivArtworkId::Illust(
                    dec_val(page.series@[i].work_id@) as u64,
                )
            &&& forall|i: int|
                0 <= i < page.series_contents@.len() ==> v@[page.series@.len() + i]
                    == PixivArtworkId::Novel(
                    dec_val(#[trigger] page.series_contents@[i].id@) as u64,
                )
        },
{
    let mut out: Vec<PixivArtworkId> = Vec::new();
    let n = page.series.len();
    let mut i: usize = 0;
    while i < n
        invariant
            0 <= i <= n,
            n == page.series@.len(),
            out@.len() == i,
            forall|j: int|
                0 <= j < i ==> {
                    let w = (#[trigger] page.series@[j]).work_id@;
                    w.len() > 0 && all_dec_digits(w) && dec_val(w) <= u64::MAX
                },
            forall|j: int|
                0 <= j < i ==> #[trigger] out@[j] == PixivArtworkId::Illust(
                    dec_val(page.series@[j].work_id@) as u64,
                ),
        decreases n - i,
    {
        match parse_u64(page.series[i].work_id.as_str()) {
            Some(id) => {
                out.push(PixivArtworkId::Illust(id));
            },
            None => {
                return None;
            },
        }
        i += 1;
    }
    let m = page.series_contents.len();
    let mut j: usize = 0;
    while j < m
        invariant
            0 <= j <= m,
            m == page.series_contents@.len(),
            n == page.series@.len(),
            out@.len() == n + j,
            forall|k: int|
                0 <= k < n ==> {
                    let w = (#[trigger] page.series@[k]).work_id@;
                    w.len() > 0 && all_dec_digits(w) && dec_val(w) <= u64::MAX
                },
            forall|k: int|
                0 <= k < n ==> #[trigger] out@[k] == PixivArtworkId::Illust(
                    dec_val(page.series@[k].work_id@) as u64,
                ),
            forall|k: int|
                0 <= k < j ==> {
                    let w = (#[trigger] page.series_contents@[k]).id@;
                    w.len() > 0 && all_dec_digits(w) && dec_val(w) <= u64::MAX
                },
            forall|k: int|
                0 <= k < j ==> out@[n + k] == PixivArtworkId::Novel(
                    dec_val(#[trigger] page.series_contents@[k].id@) as u64,
                ),
        decreases m - j,
    {
        match parse_u64(page.series_contents[j].id.as_str()) {
            Some(id) => {
                out.push(PixivArtworkId::Novel(id));
            },
            None => {
                return None;
            },
        }
        j += 1;
    }
    Some(out)
}

} // verus!
