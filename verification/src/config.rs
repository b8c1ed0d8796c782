//! The pipeline's static configuration, the seed fan-out it induces, and
//! the derived request values (session cookie, generated user agent).

use vstd::prelude::*;
use vstd::string::*;

use crate::artwork::PixivArtworkId;
use crate::series::PixivSeriesId;
use crate::text::dec_digits;
use crate::text::u64_to_dec;

verus! {

/// The resolved configuration of one run. These values flow in once and
/// are never mutated by the pipeline.
#[derive(Debug)]
pub struct Config {
    /// The session credential put on every request.
    pub session: String,
    /// Users whose whole profile is archived.
    pub users: Vec<u64>,
    /// Single illustration works to archive.
    pub illusts: Vec<u64>,
    /// Single text works to archive.
    pub novels: Vec<u64>,
    /// Illustration series to expand.
    pub illust_series: Vec<u64>,
    /// Text-work series to expand.
    pub novel_series: Vec<u64>,
    /// Whether the follow list of the session's user is expanded.
    pub followed_users: bool,
    /// Whether the favorite bookmarks of the session's user are expanded.
    pub favorite: bool,
    /// The output directory of the archive store.
    pub output: String,
    /// Whether existing files may be overwritten.
    pub overwrite: bool,
    /// The user-agent string, possibly generated.
    pub user_agent: String,
    /// The request-rate limit handed to the fetch client.
    pub limit: u32,
}

/// A category of a user's published works that a run may be asked to
/// archive.
#[derive(Debug, Clone, Copy, PartialEq, Eq, Structural)]
pub enum ArchiveCategory {
    Illusts,
    Manga,
    Novels,
    MangaSeries,
    NovelSeries,
}

/// One seed pushed onto an expansion channel.
#[derive(Debug, Clone, Copy, PartialEq, Eq, Structural)]
pub enum Seed {
    User(u64),
    Series(PixivSeriesId),
    Artwork(PixivArtworkId),
}

/// The seeds of a configuration, in dispatch order: every user, then every
/// illustration series, every text series, every single illustration, and
/// every single text work — each exactly once.
pub open spec fn seeds_of(c: &Config) -> Seq<Seed> {
    c.users@.map_values(|id: u64| Seed::User(id)) + c.illust_series@.map_values(
        |id: u64| Seed::Series(PixivSeriesId::Illust(id)),
    ) + c.novel_series@.map_values(|id: u64| Seed::Series(PixivSeriesId::Novel(id)))
        + c.illusts@.map_values(|id: u64| Seed::Artwork(PixivArtworkId::Illust(id)))
        + c.novels@.map_values(|id: u64| Seed::Artwork(PixivArtworkId::Novel(id)))
}

/// Fans the configuration out into its seeds, each pushed exactly once, in
/// dispatch order.
pub fn dispatch_seeds(config: &Config) -> (r: Vec<Seed>)
    ensures
        r@ == seeds_of(config),
{
    let mut out: Vec<Seed> = Vec::new();
    let mut i: usize = 0;
    let n0 = config.users.len();
    while i < n0
        invariant
            0 <= i <= n0,
            n0 == config.users@.len(),
            out@.len() == i,
            forall|j: int| 0 <= j < i ==> out@[j] == Seed::User(#[trigger] config.users@[j]),
        decreases n0 - i,
    {
        out.push(Seed::User(config.users[i]));
        i += 1;
    }
    let n1 = config.illust_series.len();
    let mut i1: usize = 0;
    while i1 < n1
        invariant
            0 <= i1 <= n1,
            n1 == config.illust_series@.len(),
            n0 == config.users@.len(),
            out@.len() == n0 + i1,
            forall|j: int| 0 <= j < n0 ==> out@[j] == Seed::User(#[trigger] config.users@[j]),
            forall|j: int|
                0 <= j < i1 ==> out@[n0 + j] == Seed::Series(
                    PixivSeriesId::Illust(#[trigger] config.illust_series@[j]),
                ),
        decreases n1 - i1,
    {
        out.push(Seed::Series(PixivSeriesId::Illust(config.illust_series[i1])));
        i1 += 1;
    }
    let n2 = config.novel_series.len();
    let mut i2: usize = 0;
    while i2 < n2
        invariant
            0 <= i2 <= n2,
            n2 == config.novel_series@.len(),
            n1 == config.illust_series@.len(),
            n0 == config.users@.len(),
            out@.len() == n0 + n1 + i2,
            forall|j: int| 0 <= j < n0 ==> out@[j] == Seed::User(#[trigger] config.users@[j]),
            forall|j: int|
                0 <= j < n1 ==> out@[n0 + j] == Seed::Series(
                    PixivSeriesId::Illust(#[trigger] config.illust_series@[j]),
                ),
            forall|j: int|
                0 <= j < i2 ==> out@[n0 + n1 + j] == Seed::Series(
                    PixivSeriesId::Novel(#[trigger] config.novel_series@[j]),
                ),
        decreases n2 - i2,
    {
        out.push(Seed::Series(PixivSeriesId::Novel(config.novel_series[i2])));
        i2 += 1;
    }
    let n3 = config.illusts.len();
    let mut i3: usize = 0;
    while i3 < n3
        invariant
            0 <= i3 <= n3,
            n3 == config.illusts@.len(),
            n2 == config.novel_series@.len(),
            n1 == config.illust_series@.len(),
            n0 == config.users@.len(),
            out@.len() == n0 + n1 + n2 + i3,
            forall|j: int| 0 <= j < n0 ==> out@[j] == Seed::User(#[trigger] config.users@[j]),
            forall|j: int|
                0 <= j < n1 ==> out@[n0 + j] == Seed::Series(
                    PixivSeriesId::Illust(#[trigger] config.illust_series@[j]),
                ),
            forall|j: int|
                0 <= j < n2 ==> out@[n0 + n1 + j] == Seed::Series(
                    PixivSeriesId::Novel(#[trigger] config.novel_series@[j]),
                ),
            forall|j: int|
                0 <= j < i3 ==> out@[n0 + n1 + n2 + j] == Seed::Artwork(
                    PixivArtworkId::Illust(#[trigger] config.illusts@[j]),
                ),
        decreases n3 - i3,
    {
        out.push(Seed::Artwork(PixivArtworkId::Illust(config.illusts[i3])));
        i3 += 1;
    }
    let n4 = config.novels.len();
    let mut i4: usize = 0;
    while i4 < n4
        invariant
            0 <= i4 <= n4,
            n4 == config.novels@.len(),
            n3 == config.illusts@.len(),
            n2 == config.novel_series@.len(),
            n1 == config.illust_series@.len(),
            n0 == config.users@.len(),
            out@.len() == n0 + n1 + n2 + n3 + i4,
            forall|j: int| 0 <= j < n0 ==> out@[j] == Seed::User(#[trigger] config.users@[j]),
            forall|j: int|
                0 <= j < n1 ==> out@[n0 + j] == Seed::Series(
                    PixivSeriesId::Illust(#[trigger] config.illust_series@[j]),
                ),
            forall|j: int|
                0 <= j < n2 ==> out@[n0 + n1 + j] == Seed::Series(
                    PixivSeriesId::Novel(#[trigger] config.novel_series@[j]),
                ),
            forall|j: int|
                0 <= j < n3 ==> out@[n0 + n1 + n2 + j] == Seed::Artwork(
                    PixivArtworkId::Illust(#[trigger] config.illusts@[j]),
                ),
            forall|j: int|
                0 <= j < i4 ==> out@[n0 + n1 + n2 + n3 + j] == Seed::Artwork(
                    PixivArtworkId::Novel(#[trigger] config.novels@[j]),
                ),
        decreases n4 - i4,
    {
        out.push(Seed::Artwork(PixivArtworkId::Novel(config.novels[i4])));
        i4 += 1;
    }
    proof {
        assert(out@ =~= seeds_of(config));
    }
    out
}

/// The session cookie put on every request.
pub open spec fn session_cookie_spec(session: Seq<char>) -> Seq<char> {
    "PHPSESSID="@ + session
}

/// Builds the session cookie value for the configured credential.
pub fn session_cookie(session: &str) -> (r: String)
    ensures
        r@ == session_cookie_spec(session@),
{
    let mut s = String::from_str("PHPSESSID=");
    s.append(session);
    s
}

/// The user-agent string generated when none is configured, as a function
/// of the current time in seconds: the major, WebKit and Chrome version
/// fields vary slowly with the clock.
pub open spec fn default_user_agent_spec(dt: u64) -> Seq<char> {
    "Mozilla/"@ + dec_digits((dt % 2 + 4) as nat) + ".0 (Windows NT 10.0; Win64; x64) AppleWebKit/537."@
        + dec_digits((dt / 2 % 64) as nat) + " (KHTML, like Gecko) Chrome/"@ + dec_digits(
        (dt / 128 % 5 + 132) as nat,
    ) + ".0.0.0 Safari/537."@ + dec_digits((dt / 2 % 64) as nat)
}

/// Generates the fallback user-agent string for time `dt` (seconds); the
/// surrounding process reads the clock and hands the value in.
pub fn default_user_agent(dt: u64) -> (r: String)
    ensures
        r@ == default_user_agent_spec(dt),
{
    let major: u64 = dt % 2 + 4;
    let webkit: u64 = dt / 2 % 64;
    let chrome: u64 = dt / 128 % 5 + 132;
    let mut s = String::from_str("Mozilla/");
    s.append(u64_to_dec(major).as_str());
    s.append(".0 (Windows NT 10.0; Win64; x64) AppleWebKit/537.");
    s.append(u64_to_dec(webkit).as_str());
    s.append(" (KHTML, like Gecko) Chrome/");
    s.append(u64_to_dec(chrome).as_str());
    s.append(".0.0.0 Safari/537.");
    s.append(u64_to_dec(webkit).as_str());
    s
}

} // verus!
