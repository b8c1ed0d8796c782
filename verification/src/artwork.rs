//! Artwork identifiers and metadata: the canonical source and API URLs of a
//! crawl target, the fetched metadata record, and the pieces of content-list
//! assembly that depend only on the metadata.

use vstd::prelude::*;
use vstd::string::*;

use crate::file::Content;
use crate::file::ContentV;
use crate::file::FileMeta;
use crate::file::FileMetaV;
use crate::file::PixivUgoira;
use crate::file::ArchiveRequest;
use crate::file::RequestV;
use crate::file::clone_extra;
use crate::tag::PixivTags;
use crate::text::dec_digits;
use crate::text::quoted_lines;
use crate::text::quoted_range;
use crate::text::trim_bounds;
use crate::text::trim_spec;
use crate::text::chars_to_string;
use crate::text::u64_to_dec;

verus! {

/// Identifies one crawl target: an illustration (or manga) work, or a text
/// work. The tag decides which endpoint family every derived URL uses.
#[derive(Debug, Clone, Copy, PartialEq, Eq, Hash, Structural)]
pub enum PixivArtworkId {
    Illust(u64),
    Novel(u64),
}

/// The canonical source URL of an artwork: the address stored with the post
/// and checked for resumability.
pub open spec fn artwork_source_url(id: PixivArtworkId) -> Seq<char> {
    match id {
        PixivArtworkId::Illust(n) => "https://www.pixiv.net/artworks/"@ + dec_digits(n as nat),
        PixivArtworkId::Novel(n) => "https://www.pixiv.net/novel/show.php?id="@ + dec_digits(
            n as nat,
        ),
    }
}

/// The metadata endpoint of an artwork.
pub open spec fn artwork_api_url(id: PixivArtworkId) -> Seq<char> {
    match id {
        PixivArtworkId::Illust(n) => "https://www.pixiv.net/ajax/illust/"@ + dec_digits(n as nat),
        PixivArtworkId::Novel(n) => "https://www.pixiv.net/ajax/novel/"@ + dec_digits(n as nat),
    }
}

/// The page-list endpoint of an illustration.
pub open spec fn artwork_pages_url(id: Seq<char>) -> Seq<char> {
    "https://www.pixiv.net/ajax/illust/"@ + id + "/pages?lang=ja"@
}

/// The frame-timing endpoint of an animated illustration.
pub open spec fn ugoira_meta_url(id: Seq<char>) -> Seq<char> {
    "https://www.pixiv.net/ajax/illust/"@ + id + "/ugoira_meta"@
}

impl PixivArtworkId {
    /// The numeric identifier, whichever family the artwork belongs to.
    pub fn id(&self) -> (r: u64)
        ensures
            *self == PixivArtworkId::Illust(r) || *self == PixivArtworkId::Novel(r),
    {
        match self {
            PixivArtworkId::Illust(id) => *id,
            PixivArtworkId::Novel(id) => *id,
        }
    }

    /// The family name used in log lines.
    pub fn name(&self) -> (r: &'static str)
        ensures
            self is Illust ==> r@ == "Illust"@,
            self is Novel ==> r@ == "Novel"@,
    {
        match self {
            PixivArtworkId::Illust(_) => "Illust",
            PixivArtworkId::Novel(_) => "Novel",
        }
    }

    /// The canonical source URL of this artwork.
    pub fn url(&self) -> (r: String)
        ensures
            r@ == artwork_source_url(*self),
    {
        match self {
            PixivArtworkId::Illust(id) => {
                let mut s = String::from_str("https://www.pixiv.net/artworks/");
                s.append(u64_to_dec(*id).as_str());
                s
            },
            PixivArtworkId::Novel(id) => {
                let mut s = String::from_str("https://www.pixiv.net/novel/show.php?id=");
                s.append(u64_to_dec(*id).as_str());
                s
            },
        }
    }

    /// The metadata endpoint of this artwork.
    pub fn api_url(&self) -> (r: String)
        ensures
            r@ == artwork_api_url(*self),
    {
        match self {
            PixivArtworkId::Illust(id) => {
                let mut s = String::from_str("https://www.pixiv.net/ajax/illust/");
                s.append(u64_to_dec(*id).as_str());
                s
            },
            PixivArtworkId::Novel(id) => {
                let mut s = String::from_str("https://www.pixiv.net/ajax/novel/");
                s.append(u64_to_dec(*id).as_str());
                s
            },
        }
    }
}

/// The page-list endpoint for the artwork with identifier string `id`.
pub fn pages_url(id: &str) -> (r: String)
    ensures
        r@ == artwork_pages_url(id@),
{
    let mut s = String::from_str("https://www.pixiv.net/ajax/illust/");
    s.append(id);
    s.append("/pages?lang=ja");
    s
}

/// The frame-timing endpoint for the artwork with identifier string `id`.
pub fn ugoira_url(id: &str) -> (r: String)
    ensures
        r@ == ugoira_meta_url(id@),
{
    let mut s = String::from_str("https://www.pixiv.net/ajax/illust/");
    s.append(id);
    s.append("/ugoira_meta");
    s
}

/// Whether an artwork was AI-generated, as the platform flags it.
#[derive(Debug, Clone, Copy, PartialEq, Eq, Hash, Structural)]
pub enum AiType {
    Unknown,
    No,
    Yes,
}

/// The kind of an illustration work.
#[derive(Debug, Clone, Copy, PartialEq, Eq, Hash, Structural)]
pub enum IllustType {
    Illust,
    Manga,
    Ugoira,
}

/// The maturity rating of an artwork.
#[derive(Debug, Clone, Copy, PartialEq, Eq, Hash, Structural)]
pub enum ContentRestrict {
    General,
    R18,
    R18G,
}

/// The content variant of a fetched artwork: exactly one of the two shapes
/// is populated, decided by which identifier family produced the fetch.
#[derive(Debug, Clone)]
pub enum PixivArtworkContent {
    Illust {
        illust_comment: String,
        illust_id: String,
        illust_title: String,
        illust_type: IllustType,
    },
    Novel { content: String, cover_url: String },
}

/// The series-navigation link of an artwork, when the artwork belongs to a
/// series.
#[derive(Debug, Clone)]
pub struct PixivArtworkNavData {
    pub series_id: String,
    pub title: String,
}

/// A collection the archive stores: a name and its source URL.
#[derive(Debug, Clone)]
pub struct Collection {
    pub name: String,
    pub source: String,
}

/// The source URL of a user's series.
pub open spec fn series_collection_url(user_id: Seq<char>, series_id: Seq<char>) -> Seq<char> {
    "https://www.pixiv.net/user/"@ + user_id + "/series/"@ + series_id
}

impl PixivArtworkNavData {
    /// The collection this navigation link denotes, under its owner's user
    /// identifier.
    pub fn into_collection(&self, user_id: String) -> (r: Collection)
        ensures
            r.name@ == self.title@,
            r.source@ == series_collection_url(user_id@, self.series_id@),
    {
        let mut source = String::from_str("https://www.pixiv.net/user/");
        source.append(user_id.as_str());
        source.append("/series/");
        source.append(self.series_id.as_str());
        Collection { name: self.title.clone(), source }
    }
}

/// One fetched artwork record: the fields of the metadata response the
/// pipeline consumes.
#[derive(Debug, Clone)]
pub struct PixivArtwork {
    pub id: String,
    pub title: String,
    pub user_id: String,
    pub user_name: String,
    pub ai_type: AiType,
    pub comment_count: u32,
    pub comment_off: u8,
    pub create_date: String,
    pub upload_date: String,
    pub description: String,
    pub content: PixivArtworkContent,
    pub tags: PixivTags,
    pub series_nav_data: Option<PixivArtworkNavData>,
}

impl PixivArtwork {
    /// Whether the comment tree should be fetched at all: the artwork allows
    /// comments and reports at least one.
    pub fn has_comment(&self) -> (r: bool)
        ensures
            r == (self.comment_off == 0 && self.comment_count > 0),
    {
        self.comment_off == 0 && self.comment_count > 0
    }

    /// The collections of this artwork: the one collection derived from the
    /// series-navigation link when the artwork belongs to a series.
    pub fn collections(&self) -> (r: Vec<Collection>)
        ensures
            match self.series_nav_data {
                Some(nav) => r@.len() == 1 && r@[0].name@ == nav.title@ && r@[0].source@
                    == series_collection_url(self.user_id@, nav.series_id@),
                None => r@.len() == 0,
            },
    {
        match &self.series_nav_data {
            Some(nav) => {
                let mut v: Vec<Collection> = Vec::new();
                v.push(nav.into_collection(self.user_id.clone()));
                v
            },
            None => Vec::new(),
        }
    }
}

/// The quoted form of an artwork description: a quote marker, then the
/// trimmed description with every newline re-quoted.
pub open spec fn description_text(desc: Seq<char>) -> Seq<char> {
    "> "@ + quoted_lines(trim_spec(desc))
}

/// Builds the description block of an artwork's content list.
pub fn parse_description(desc: &str) -> (r: String)
    ensures
        r@ == description_text(desc@),
{
    let (a, b) = trim_bounds(desc);
    let quoted = quoted_range(desc, a, b);
    let mut s = String::from_str("> ");
    let tail = chars_to_string(&quoted);
    s.append(tail.as_str());
    s
}

// ---------------------------------------------------------------------------
// File metadata derived from URLs
// ---------------------------------------------------------------------------

/// What `reqwest::Url` yields as the last path segment of `url`: a function
/// of the string alone, absent when the string is not an absolute URL with
/// path segments.
pub uninterp spec fn url_file_name(url: Seq<char>) -> Option<Seq<char>>;

/// Relies on `reqwest::Url::parse` and `Url::path_segments`: the last path
/// segment of a well-formed URL, a pure function of the URL string.
#[verifier::external_body]
fn last_path_segment(url: &str) -> (r: Option<String>)
    ensures
        r.deep_view() == url_file_name(url@),
{
    match reqwest::Url::parse(url) {
        Ok(parsed) => match parsed.path_segments() {
            Some(mut segments) => segments.next_back().map(|s| s.to_string()),
            None => None,
        },
        Err(_) => None,
    }
}

/// What `mime_guess` answers for a file name: a pure function of the name,
/// falling back to the octet-stream type when nothing matches.
pub uninterp spec fn mime_of(filename: Seq<char>) -> Seq<char>;

/// Relies on `mime_guess::from_path` with `first_or_octet_stream`: the
/// guessed MIME type depends on the file name alone.
#[verifier::external_body]
fn guess_mime(filename: &str) -> (r: String)
    ensures
        r@ == mime_of(filename@),
{
    mime_guess::from_path(filename).first_or_octet_stream().to_string()
}

/// The file name stored for a download: the given one when the caller
/// forces it, else the URL's last path segment.
pub open spec fn file_name_of(url: Seq<char>, filename: Option<Seq<char>>) -> Option<Seq<char>> {
    match filename {
        Some(f) => Some(f),
        None => url_file_name(url),
    }
}

/// The request a download descriptor carries: a sized image request when a
/// target size is forced, else a plain image request.
pub open spec fn sized_request(url: Seq<char>, size: Option<(u32, u32)>) -> RequestV {
    match size {
        Some(wh) => RequestV::ImageWithSize { url, width: wh.0, height: wh.1 },
        None => RequestV::Image(url),
    }
}

/// Builds the file metadata of one download: the file name (forced, or
/// derived from the URL), the MIME type guessed from that name, and the
/// request. `None` exactly when no file name can be derived.
pub fn url_into_file_meta(url: String, filename: Option<String>, size: Option<(u32, u32)>) -> (r:
    Option<FileMeta>)
    ensures
        r is Some <==> file_name_of(url@, filename.deep_view()) is Some,
        r matches Some(m) ==> m@ == (FileMetaV {
            filename: file_name_of(url@, filename.deep_view())->0,
            mime: mime_of(file_name_of(url@, filename.deep_view())->0),
            data: sized_request(url@, size),
            extra: Seq::<(Seq<char>, u64)>::empty(),
        }),
{
    let name: String = match filename {
        Some(f) => f,
        None => {
            match last_path_segment(url.as_str()) {
                Some(seg) => seg,
                None => {
                    return None;
                },
            }
        },
    };
    let mime = guess_mime(name.as_str());
    let data = match size {
        Some((width, height)) => ArchiveRequest::ImageWithSize { url, width, height },
        None => ArchiveRequest::Image(url),
    };
    let r = FileMeta { filename: name, mime, data, extra: Vec::new() };
    proof {
        assert(r.extra.deep_view() =~= Seq::<(Seq<char>, u64)>::empty());
    }
    Some(r)
}

/// One page of an illustration, as the page-list endpoint reports it.
#[derive(Debug)]
pub struct PixivIllustPageUrls {
    pub original: String,
    pub regular: String,
    pub small: String,
    pub thumb_mini: String,
}

/// One page of an illustration: its variant URLs and natural dimensions.
#[derive(Debug)]
pub struct PixivIllustPages {
    pub urls: PixivIllustPageUrls,
    pub width: u32,
    pub height: u32,
}

/// The extra display metadata of a page: its natural width and height.
pub open spec fn page_extra(width: u32, height: u32) -> Seq<(Seq<char>, u64)> {
    seq![("width"@, width as u64), ("height"@, height as u64)]
}

/// The file metadata of one fetched page: named by the original-resolution
/// URL's last segment, with the natural dimensions as extra metadata.
pub open spec fn page_file_meta(url: Seq<char>, width: u32, height: u32) -> FileMetaV
    recommends
        url_file_name(url) is Some,
{
    FileMetaV {
        filename: url_file_name(url)->0,
        mime: mime_of(url_file_name(url)->0),
        data: RequestV::Image(url),
        extra: page_extra(width, height),
    }
}

/// Turns a fetched page list into the file metadata of each page, one
/// original-resolution request per page in page order. `None` exactly when
/// some page's URL yields no file name.
pub fn pages_to_file_metas(pages: &Vec<PixivIllustPages>) -> (r: Option<Vec<FileMeta>>)
    ensures
        r is Some <==> (forall|i: int|
            0 <= i < pages@.len() ==> url_file_name(
                (#[trigger] pages@[i]).urls.original@,
            ) is Some),
        r matches Some(v) ==> {
            &&& v@.len() == pages@.len()
            &&& forall|i: int|
                0 <= i < pages@.len() ==> (#[trigger] v@[i])@ == page_file_meta(
                    pages@[i].urls.original@,
                    pages@[i].width,
                    pages@[i].height,
                )
        },
{
    let mut out: Vec<FileMeta> = Vec::new();
    let n = pages.len();
    let mut i: usize = 0;
    while i < n
        invariant
            0 <= i <= n,
            n == pages@.len(),
            out@.len() == i,
            forall|j: int|
                0 <= j < i ==> url_file_name((#[trigger] pages@[j]).urls.original@) is Some,
            forall|j: int|
                0 <= j < i ==> (#[trigger] out@[j])@ == page_file_meta(
                    pages@[j].urls.original@,
                    pages@[j].width,
                    pages@[j].height,
                ),
        decreases n - i,
    {
        let page = &pages[i];
        match url_into_file_meta(page.urls.original.clone(), None, None) {
            Some(mut meta) => {
                let mut extra: Vec<(String, u64)> = Vec::new();
                extra.push((String::from_str("width"), page.width as u64));
                extra.push((String::from_str("height"), page.height as u64));
                meta.extra = extra;
                proof {
                    assert(meta.extra.deep_view() =~= page_extra(
                        pages@[i as int].width,
                        pages@[i as int].height,
                    ));
                }
                out.push(meta);
            },
            None => {
                return None;
            },
        }
        i += 1;
    }
    Some(out)
}

/// The fixed target size of a text work's cover image.
pub open spec fn cover_size() -> (u32, u32) {
    (427, 600)
}

/// The file metadata of a text work's cover: the cover-specific file name,
/// a request at the fixed cover target size, and that size as extra
/// metadata.
pub open spec fn cover_file_meta(url: Seq<char>) -> FileMetaV {
    FileMetaV {
        filename: "cover.jpg"@,
        mime: mime_of("cover.jpg"@),
        data: RequestV::ImageWithSize { url, width: 427, height: 600 },
        extra: seq![("width"@, 427u64), ("height"@, 600u64)],
    }
}

/// Builds the cover descriptor of a text work from its declared cover URL.
pub fn parse_cover(url: &str) -> (r: FileMeta)
    ensures
        r@ == cover_file_meta(url@),
{
    let owned = String::from_str(url);
    let meta = url_into_file_meta(owned, Some(String::from_str("cover.jpg")), Some((427, 600)));
    match meta {
        Some(mut m) => {
            let mut extra: Vec<(String, u64)> = Vec::new();
            extra.push((String::from_str("width"), 427u64));
            extra.push((String::from_str("height"), 600u64));
            m.extra = extra;
            proof {
                assert(m.extra.deep_view() =~= seq![("width"@, 427u64), ("height"@, 600u64)]);
            }
            m
        },
        None => {
            proof {
                assert(false);
            }
            unreached()
        },
    }
}

// ---------------------------------------------------------------------------
// Content-list assembly
// ---------------------------------------------------------------------------

/// The content items of a list of file metadata, in order.
pub open spec fn file_contents_of(metas: Seq<FileMetaV>) -> Seq<ContentV> {
    metas.map_values(|m: FileMetaV| ContentV::File(m))
}

/// Assembles the content list of a plain illustration or manga work: the
/// quoted description, then one file item per fetched page; the first page
/// doubles as the thumbnail.
pub fn build_illust_contents(description: &str, file_metas: Vec<FileMeta>) -> (r: (Vec<Content>,
    Option<FileMeta>))
    ensures
        r.0.deep_view() == seq![ContentV::Text(description_text(description@))]
            + file_contents_of(file_metas.deep_view()),
        file_metas@.len() == 0 ==> r.1 is None,
        file_metas@.len() > 0 ==> (r.1 matches Some(t) && t@ == file_metas.deep_view()[0]),
{
    let thumb: Option<FileMeta> = if file_metas.len() > 0 {
        Some(file_metas[0].duplicate())
    } else {
        None
    };
    let mut contents: Vec<Content> = Vec::new();
    contents.push(Content::Text(parse_description(description)));
    let n = file_metas.len();
    let mut i: usize = 0;
    while i < n
        invariant
            0 <= i <= n,
            n == file_metas@.len(),
            contents.deep_view().len() == i + 1,
            contents.deep_view()[0] == ContentV::Text(description_text(description@)),
            forall|j: int|
                0 <= j < i ==> contents.deep_view()[j + 1] == ContentV::File(
                    (#[trigger] file_metas@[j])@,
                ),
        decreases n - i,
    {
        contents.push(Content::File(file_metas[i].duplicate()));
        i += 1;
    }
    proof {
        assert(contents.deep_view() =~= seq![ContentV::Text(description_text(description@))]
            + file_contents_of(file_metas.deep_view()));
    }
    (contents, thumb)
}

/// The single file item of an animated work: the fixed output name and
/// type, the frame-reassembly request, and the extra metadata of the first
/// page.
pub open spec fn ugoira_file_meta(
    original_src: Seq<char>,
    frames: Seq<(u32, Seq<char>)>,
    extra: Seq<(Seq<char>, u64)>,
) -> FileMetaV {
    FileMetaV {
        filename: "ugoira.webm"@,
        mime: "video/webm"@,
        data: RequestV::Ugoira { url: original_src, frames },
        extra,
    }
}

/// Assembles the content list of an animated work: the quoted description,
/// then one frame-reassembly file item built from the frame-timing record;
/// the first fetched page is the thumbnail and lends the item its extra
/// metadata. `None` when no page was fetched, since the thumbnail's
/// metadata is then missing.
pub fn build_ugoira_contents(
    description: &str,
    file_metas: Vec<FileMeta>,
    ugoira: PixivUgoira,
) -> (r: Option<(Vec<Content>, Option<FileMeta>)>)
    ensures
        r is Some <==> file_metas@.len() > 0,
        r matches Some(p) ==> {
            &&& p.0.deep_view() == seq![ContentV::Text(description_text(description@))] + seq![
                ContentV::File(
                    ugoira_file_meta(
                        ugoira.original_src@,
                        ugoira.frames.deep_view(),
                        file_metas.deep_view()[0].extra,
                    ),
                ),
            ]
            &&& p.1 matches Some(t) && t@ == file_metas.deep_view()[0]
        },
{
    if file_metas.len() == 0 {
        return None;
    }
    let thumb = file_metas[0].duplicate();
    let extra = clone_extra(&thumb.extra);
    let mut contents: Vec<Content> = Vec::new();
    contents.push(Content::Text(parse_description(description)));
    contents.push(
        Content::File(
            FileMeta {
                filename: String::from_str("ugoira.webm"),
                mime: String::from_str("video/webm"),
                data: ArchiveRequest::Ugoira {
                    url: ugoira.original_src,
                    frames: ugoira.frames,
                },
                extra,
            },
        ),
    );
    proof {
        assert(contents.deep_view() =~= seq![ContentV::Text(description_text(description@))]
            + seq![
            ContentV::File(
                ugoira_file_meta(
                    ugoira.original_src@,
                    ugoira.frames.deep_view(),
                    file_metas.deep_view()[0].extra,
                ),
            ),
        ]);
    }
    Some((contents, Some(thumb)))
}

/// Assembles the content list of a text work: the quoted description, the
/// body text, and one file item for the cover at its fixed target size; the
/// cover descriptor doubles as the thumbnail.
pub fn build_novel_contents(description: &str, body: &String, cover_url: &str) -> (r: (Vec<
    Content,
>, Option<FileMeta>))
    ensures
        r.0.deep_view() == seq![
            ContentV::Text(description_text(description@)),
            ContentV::Text(body@),
            ContentV::File(cover_file_meta(cover_url@)),
        ],
        r.1 matches Some(t) && t@ == cover_file_meta(cover_url@),
{
    let mut contents: Vec<Content> = Vec::new();
    contents.push(Content::Text(parse_description(description)));
    contents.push(Content::Text(body.clone()));
    let cover = parse_cover(cover_url);
    contents.push(Content::File(cover.duplicate()));
    proof {
        assert(contents.deep_view() =~= seq![
            ContentV::Text(description_text(description@)),
            ContentV::Text(body@),
            ContentV::File(cover_file_meta(cover_url@)),
        ]);
    }
    (contents, Some(cover))
}

} // verus!
