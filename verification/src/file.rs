//! File materialization: the download requests an artwork produces, the
//! per-request processing decision of the download stage, and the mapping
//! from request URL to downloaded temp file that the persistence stage
//! consumes.

use vstd::prelude::*;
use vstd::string::*;

verus! {

/// One frame of an animated illustration: its delay and file name.
#[derive(Debug)]
pub struct PixivUgoiraFrame {
    pub delay: u32,
    pub file: String,
}

impl View for PixivUgoiraFrame {
    type V = (u32, Seq<char>);

    open spec fn view(&self) -> (u32, Seq<char>) {
        (self.delay, self.file@)
    }
}

impl DeepView for PixivUgoiraFrame {
    type V = (u32, Seq<char>);

    open spec fn deep_view(&self) -> (u32, Seq<char>) {
        self@
    }
}

/// The frame-timing record of an animated illustration.
#[derive(Debug)]
pub struct PixivUgoira {
    pub original_src: String,
    pub src: String,
    pub mime_type: String,
    pub frames: Vec<PixivUgoiraFrame>,
}

/// Copies a frame list; the copy denotes the same frames.
pub fn clone_frames(frames: &Vec<PixivUgoiraFrame>) -> (r: Vec<PixivUgoiraFrame>)
    ensures
        r.deep_view() == frames.deep_view(),
{
    let mut out: Vec<PixivUgoiraFrame> = Vec::new();
    let n = frames.len();
    let mut i: usize = 0;
    while i < n
        invariant
            0 <= i <= n,
            n == frames@.len(),
            out.deep_view() == frames.deep_view().subrange(0, i as int),
        decreases n - i,
    {
        let ghost prev = out.deep_view();
        out.push(PixivUgoiraFrame { delay: frames[i].delay, file: frames[i].file.clone() });
        proof {
            assert(out.deep_view() =~= prev.push(frames.deep_view()[i as int]));
            assert(out.deep_view() =~= frames.deep_view().subrange(0, i as int + 1));
        }
        i += 1;
    }
    proof {
        assert(frames.deep_view().subrange(0, n as int) =~= frames.deep_view());
    }
    out
}

/// One download request: enough for the download stage to fetch and, if
/// needed, resize or reassemble.
#[derive(Debug)]
pub enum ArchiveRequest {
    Image(String),
    ImageWithSize { url: String, width: u32, height: u32 },
    Ugoira { url: String, frames: Vec<PixivUgoiraFrame> },
}

/// The mathematical value of one download request.
pub enum RequestV {
    Image(Seq<char>),
    ImageWithSize { url: Seq<char>, width: u32, height: u32 },
    Ugoira { url: Seq<char>, frames: Seq<(u32, Seq<char>)> },
}

impl View for ArchiveRequest {
    type V = RequestV;

    open spec fn view(&self) -> RequestV {
        match self {
            ArchiveRequest::Image(url) => RequestV::Image(url@),
            ArchiveRequest::ImageWithSize { url, width, height } => RequestV::ImageWithSize {
                url: url@,
                width: *width,
                height: *height,
            },
            ArchiveRequest::Ugoira { url, frames } => RequestV::Ugoira {
                url: url@,
                frames: frames.deep_view(),
            },
        }
    }
}

impl DeepView for ArchiveRequest {
    type V = RequestV;

    open spec fn deep_view(&self) -> RequestV {
        self@
    }
}

/// The URL a request fetches, whichever variant it is.
pub open spec fn request_url(r: RequestV) -> Seq<char> {
    match r {
        RequestV::Image(url) => url,
        RequestV::ImageWithSize { url, .. } => url,
        RequestV::Ugoira { url, .. } => url,
    }
}

impl ArchiveRequest {
    /// The URL this request fetches.
    pub fn url(&self) -> (r: &str)
        ensures
            r@ == request_url(self@),
    {
        match self {
            ArchiveRequest::Image(url) => url.as_str(),
            ArchiveRequest::ImageWithSize { url, .. } => url.as_str(),
            ArchiveRequest::Ugoira { url, .. } => url.as_str(),
        }
    }

    /// Copies a request; the copy denotes the same request.
    pub fn duplicate(&self) -> (r: ArchiveRequest)
        ensures
            r@ == self@,
    {
        match self {
            ArchiveRequest::Image(url) => ArchiveRequest::Image(url.clone()),
            ArchiveRequest::ImageWithSize { url, width, height } => ArchiveRequest::ImageWithSize {
                url: url.clone(),
                width: *width,
                height: *height,
            },
            ArchiveRequest::Ugoira { url, frames } => ArchiveRequest::Ugoira {
                url: url.clone(),
                frames: clone_frames(frames),
            },
        }
    }
}

/// What the download stage does with one fetched request after the raw
/// bytes are in temp storage.
#[derive(Debug, Clone, PartialEq, Eq, Structural)]
pub enum DownloadStep {
    /// Keep the raw bytes: a plain image download.
    Keep,
    /// Decode the bytes and resize to the given target if the decoded
    /// dimensions differ from it.
    FitTo { width: u32, height: u32 },
    /// Animated-frame reassembly: an explicitly unsupported path that must
    /// fail loudly rather than silently drop data.
    Unsupported,
}

/// The post-processing step one request calls for.
pub open spec fn download_step_spec(r: RequestV) -> DownloadStep {
    match r {
        RequestV::Image(_) => DownloadStep::Keep,
        RequestV::ImageWithSize { url: _, width, height } => DownloadStep::FitTo {
            width,
            height,
        },
        RequestV::Ugoira { .. } => DownloadStep::Unsupported,
    }
}

/// Decides the post-processing of one downloaded request.
pub fn download_step(r: &ArchiveRequest) -> (s: DownloadStep)
    ensures
        s == download_step_spec(r@),
{
    match r {
        ArchiveRequest::Image(_) => DownloadStep::Keep,
        ArchiveRequest::ImageWithSize { url: _, width, height } => DownloadStep::FitTo {
            width: *width,
            height: *height,
        },
        ArchiveRequest::Ugoira { .. } => DownloadStep::Unsupported,
    }
}

/// Whether a decoded image must be resized: only when its dimensions differ
/// from the requested target; a download whose decoded dimensions already
/// equal the target performs no resize write.
pub fn needs_resize(src_width: u32, src_height: u32, width: u32, height: u32) -> (r: bool)
    ensures
        r == (src_width != width || src_height != height),
{
    src_width != width || src_height != height
}

/// File metadata the archive stores with one file-bearing content item.
#[derive(Debug)]
pub struct FileMeta {
    pub filename: String,
    pub mime: String,
    pub data: ArchiveRequest,
    /// Extra display metadata: named numeric fields such as the natural
    /// width and height of an image.
    pub extra: Vec<(String, u64)>,
}

/// The mathematical value of one file's metadata.
pub struct FileMetaV {
    pub filename: Seq<char>,
    pub mime: Seq<char>,
    pub data: RequestV,
    pub extra: Seq<(Seq<char>, u64)>,
}

impl View for FileMeta {
    type V = FileMetaV;

    open spec fn view(&self) -> FileMetaV {
        FileMetaV {
            filename: self.filename@,
            mime: self.mime@,
            data: self.data@,
            extra: self.extra.deep_view(),
        }
    }
}

impl DeepView for FileMeta {
    type V = FileMetaV;

    open spec fn deep_view(&self) -> FileMetaV {
        self@
    }
}

/// Copies an extra-metadata list; the copy denotes the same fields.
pub fn clone_extra(extra: &Vec<(String, u64)>) -> (r: Vec<(String, u64)>)
    ensures
        r.deep_view() == extra.deep_view(),
{
    let mut out: Vec<(String, u64)> = Vec::new();
    let n = extra.len();
    let mut i: usize = 0;
    while i < n
        invariant
            0 <= i <= n,
            n == extra@.len(),
            out.deep_view() == extra.deep_view().subrange(0, i as int),
        decreases n - i,
    {
        let ghost prev = out.deep_view();
        out.push((extra[i].0.clone(), extra[i].1));
        proof {
            assert(out.deep_view() =~= prev.push(extra.deep_view()[i as int]));
            assert(out.deep_view() =~= extra.deep_view().subrange(0, i as int + 1));
        }
        i += 1;
    }
    proof {
        assert(extra.deep_view().subrange(0, n as int) =~= extra.deep_view());
    }
    out
}

impl FileMeta {
    /// Copies a file's metadata; the copy denotes the same file.
    pub fn duplicate(&self) -> (r: FileMeta)
        ensures
            r@ == self@,
    {
        let r = FileMeta {
            filename: self.filename.clone(),
            mime: self.mime.clone(),
            data: self.data.duplicate(),
            extra: clone_extra(&self.extra),
        };
        r
    }
}

/// One item of a post's ordered content list.
#[derive(Debug)]
pub enum Content {
    Text(String),
    File(FileMeta),
}

/// The mathematical value of one content item.
pub enum ContentV {
    Text(Seq<char>),
    File(FileMetaV),
}

impl View for Content {
    type V = ContentV;

    open spec fn view(&self) -> ContentV {
        match self {
            Content::Text(t) => ContentV::Text(t@),
            Content::File(f) => ContentV::File(f@),
        }
    }
}

impl DeepView for Content {
    type V = ContentV;

    open spec fn deep_view(&self) -> ContentV {
        self@
    }
}

/// The download requests of a content list, in content order.
pub open spec fn file_requests_of(cs: Seq<ContentV>) -> Seq<RequestV>
    decreases cs.len(),
{
    if cs.len() == 0 {
        seq![]
    } else {
        let rest = file_requests_of(cs.drop_first());
        match cs[0] {
            ContentV::File(f) => seq![f.data] + rest,
            ContentV::Text(_) => rest,
        }
    }
}

pub proof fn lemma_file_requests_append(a: Seq<ContentV>, b: Seq<ContentV>)
    ensures
        file_requests_of(a + b) == file_requests_of(a) + file_requests_of(b),
    decreases a.len(),
{
    if a.len() == 0 {
        assert(a + b =~= b);
        assert(file_requests_of(a) + file_requests_of(b) =~= file_requests_of(b));
    } else {
        lemma_file_requests_append(a.drop_first(), b);
        assert((a + b).drop_first() =~= a.drop_first() + b);
        assert((a + b)[0] == a[0]);
        match a[0] {
            ContentV::File(f) => {
                assert(seq![f.data] + (file_requests_of(a.drop_first()) + file_requests_of(b))
                    =~= (seq![f.data] + file_requests_of(a.drop_first())) + file_requests_of(b));
            },
            ContentV::Text(_) => {},
        }
    }
}

/// Collects the download requests of one artwork's batch: every file item of
/// the content list in order, then the thumbnail's request if a thumbnail
/// exists.
pub fn collect_file_requests(contents: &Vec<Content>, thumb: &Option<FileMeta>) -> (r: Vec<
    ArchiveRequest,
>)
    ensures
        r.deep_view() == file_requests_of(contents.deep_view()) + match thumb {
            Some(t) => seq![t@.data],
            None => Seq::<RequestV>::empty(),
        },
{
    let mut out: Vec<ArchiveRequest> = Vec::new();
    let n = contents.len();
    let mut i: usize = 0;
    proof {
        assert(contents.deep_view().subrange(0, 0) =~= Seq::<ContentV>::empty());
        assert(out.deep_view() =~= file_requests_of(contents.deep_view().subrange(0, 0)));
    }
    while i < n
        invariant
            0 <= i <= n,
            n == contents@.len(),
            n == contents.deep_view().len(),
            out.deep_view() == file_requests_of(contents.deep_view().subrange(0, i as int)),
        decreases n - i,
    {
        let ghost dv = contents.deep_view();
        let ghost prefix = dv.subrange(0, i as int);
        let ghost prev = out.deep_view();
        match &contents[i] {
            Content::File(f) => {
                out.push(f.data.duplicate());
            },
            Content::Text(_) => {},
        }
        proof {
            lemma_file_requests_append(prefix, seq![dv[i as int]]);
            assert(dv.subrange(0, i as int + 1) =~= prefix + seq![dv[i as int]]);
            assert(seq![dv[i as int]].drop_first() =~= Seq::<ContentV>::empty());
            assert(file_requests_of(Seq::<ContentV>::empty()) =~= Seq::<RequestV>::empty());
            match dv[i as int] {
                ContentV::File(f) => {
                    assert(file_requests_of(seq![dv[i as int]]) =~= seq![f.data]);
                    assert(out.deep_view() =~= prev + seq![f.data]);
                },
                ContentV::Text(_) => {
                    assert(file_requests_of(seq![dv[i as int]]) =~= Seq::<RequestV>::empty());
                    assert(out.deep_view() =~= prev + file_requests_of(seq![dv[i as int]]));
                },
            }
        }
        i += 1;
    }
    proof {
        assert(contents.deep_view().subrange(0, n as int) =~= contents.deep_view());
    }
    let ghost prev = out.deep_view();
    match thumb {
        Some(t) => {
            out.push(t.data.duplicate());
            proof {
                assert(out.deep_view() =~= prev + seq![t@.data]);
            }
        },
        None => {
            proof {
                assert(out.deep_view() =~= prev + Seq::<RequestV>::empty());
            }
        },
    }
    out
}

// ---------------------------------------------------------------------------
// The URL -> temp file mapping a download batch resolves
// ---------------------------------------------------------------------------

/// The mapping denoted by an association list, later entries overriding
/// earlier ones, as repeated map insertion builds it.
pub open spec fn assoc_map<V>(s: Seq<(Seq<char>, V)>) -> Map<Seq<char>, V>
    decreases s.len(),
{
    if s.len() == 0 {
        Map::empty()
    } else {
        assoc_map(s.drop_last()).insert(s.last().0, s.last().1)
    }
}

pub proof fn lemma_assoc_map_key<V>(s: Seq<(Seq<char>, V)>, k: Seq<char>)
    ensures
        assoc_map(s).contains_key(k) <==> exists|i: int| 0 <= i < s.len() && (#[trigger] s[i]).0
            == k,
    decreases s.len(),
{
    if s.len() > 0 {
        lemma_assoc_map_key(s.drop_last(), k);
        if s.last().0 == k {
            assert((s[s.len() - 1]).0 == k);
        } else if assoc_map(s.drop_last()).contains_key(k) {
            let i = choose|i: int|
                0 <= i < s.drop_last().len() && (#[trigger] s.drop_last()[i]).0 == k;
            assert((s[i]).0 == k);
        } else {
            assert(forall|i: int|
                0 <= i < s.len() - 1 ==> (#[trigger] s[i]).0 == s.drop_last()[i].0);
        }
    }
}

/// Distinct keys: the representation invariant of the association lists
/// held by the library's maps.
pub open spec fn distinct_keys<V>(s: Seq<(Seq<char>, V)>) -> bool {
    forall|i: int, j: int|
        0 <= i < j < s.len() ==> (#[trigger] s[i]).0 != (#[trigger] s[j]).0
}

pub proof fn lemma_assoc_map_at<V>(s: Seq<(Seq<char>, V)>, i: int)
    requires
        distinct_keys(s),
        0 <= i < s.len(),
    ensures
        assoc_map(s).contains_key(s[i].0),
        assoc_map(s)[s[i].0] == s[i].1,
    decreases s.len(),
{
    lemma_assoc_map_key(s, s[i].0);
    if i < s.len() - 1 {
        assert(s[i].0 != s.last().0);
        assert(s.drop_last()[i] == s[i]);
        lemma_assoc_map_at(s.drop_last(), i);
    }
}

pub proof fn lemma_assoc_map_remove<V>(s: Seq<(Seq<char>, V)>, i: int)
    requires
        distinct_keys(s),
        0 <= i < s.len(),
    ensures
        assoc_map(s.remove(i)) == assoc_map(s).remove(s[i].0),
        distinct_keys(s.remove(i)),
    decreases s.len(),
{
    let k = s[i].0;
    lemma_assoc_map_key(s.drop_last(), k);
    if i == s.len() - 1 {
        assert(s.remove(i) =~= s.drop_last());
        assert(!assoc_map(s.drop_last()).contains_key(k)) by {
            if assoc_map(s.drop_last()).contains_key(k) {
                let j = choose|j: int|
                    0 <= j < s.drop_last().len() && (#[trigger] s.drop_last()[j]).0 == k;
                assert(s[j].0 == k);
            }
        }
        assert(assoc_map(s).remove(k) =~= assoc_map(s.drop_last()));
    } else {
        assert(s.remove(i).drop_last() =~= s.drop_last().remove(i));
        assert(s.remove(i).last() == s.last());
        lemma_assoc_map_remove(s.drop_last(), i);
        assert(s.drop_last()[i] == s[i]);
        assert(k != s.last().0);
        assert(assoc_map(s.drop_last()).remove(k).insert(s.last().0, s.last().1) =~= assoc_map(
            s.drop_last(),
        ).insert(s.last().0, s.last().1).remove(k));
    }
}

/// The URL -> temp-file mapping a resolved download batch hands to the
/// persistence stage. Temp files are named by plain path strings.
#[derive(Debug)]
pub struct TempFileMap {
    entries: Vec<(String, String)>,
}

impl View for TempFileMap {
    type V = Map<Seq<char>, Seq<char>>;

    closed spec fn view(&self) -> Map<Seq<char>, Seq<char>> {
        assoc_map(self.entries.deep_view())
    }
}

impl TempFileMap {
    /// The representation invariant: one entry per URL.
    pub closed spec fn wf(&self) -> bool {
        distinct_keys(self.entries.deep_view())
    }

    /// An empty mapping.
    pub fn new() -> (r: TempFileMap)
        ensures
            r.wf(),
            r@ == Map::<Seq<char>, Seq<char>>::empty(),
    {
        let r = TempFileMap { entries: Vec::new() };
        proof {
            assert(r.entries.deep_view() =~= Seq::<(Seq<char>, Seq<char>)>::empty());
        }
        r
    }

    fn position(&self, url: &str) -> (r: Option<usize>)
        requires
            self.wf(),
        ensures
            match r {
                Some(i) => i < self.entries@.len() && self.entries.deep_view()[i as int].0 == url@,
                None => !self@.contains_key(url@),
            },
    {
        let n = self.entries.len();
        let mut i: usize = 0;
        while i < n
            invariant
                0 <= i <= n,
                n == self.entries@.len(),
                forall|j: int| 0 <= j < i ==> (#[trigger] self.entries.deep_view()[j]).0 != url@,
            decreases n - i,
        {
            if crate::text::str_eq(self.entries[i].0.as_str(), url) {
                return Some(i);
            }
            i += 1;
        }
        proof {
            lemma_assoc_map_key(self.entries.deep_view(), url@);
        }
        None
    }

    /// Whether the mapping has an entry for `url`.
    pub fn contains(&self, url: &str) -> (r: bool)
        requires
            self.wf(),
        ensures
            r == self@.contains_key(url@),
    {
        let p = self.position(url);
        proof {
            if p is Some {
                lemma_assoc_map_at(self.entries.deep_view(), p->Some_0 as int);
            }
        }
        p.is_some()
    }

    /// Records that `url` resolved to the temp file `path`; a later entry
    /// for the same URL overrides an earlier one.
    pub fn insert(&mut self, url: String, path: String)
        requires
            old(self).wf(),
        ensures
            final(self).wf(),
            final(self)@ == old(self)@.insert(url@, path@),
    {
        let ghost before = self.entries.deep_view();
        match self.position(url.as_str()) {
            Some(i) => {
                proof {
                    lemma_assoc_map_remove(before, i as int);
                }
                self.entries.remove(i);
                let ghost removed = self.entries.deep_view();
                proof {
                    assert(removed =~= before.remove(i as int));
                }
                self.entries.push((url, path));
                proof {
                    let now = self.entries.deep_view();
                    assert(now.drop_last() =~= removed);
                    assert(now.last().0 == url@ && now.last().1 == path@);
                    assert(assoc_map(now) == assoc_map(removed).insert(url@, path@));
                    assert(assoc_map(removed).insert(url@, path@) =~= assoc_map(before).insert(
                        url@,
                        path@,
                    ));
                    // no surviving entry kept the inserted key, so the keys
                    // of the new list are again pairwise distinct
                    assert(forall|j: int|
                        0 <= j < removed.len() ==> (#[trigger] removed[j]).0 != url@) by {
                        assert(forall|j: int|
                            0 <= j < i ==> #[trigger] removed[j] == before[j]);
                        assert(forall|j: int|
                            i <= j < removed.len() ==> #[trigger] removed[j] == before[j + 1]);
                    }
                    assert(distinct_keys(now)) by {
                        assert(forall|j: int|
                            0 <= j < now.len() - 1 ==> #[trigger] now[j] == removed[j]);
                    }
                }
            },
            None => {
                proof {
                    lemma_assoc_map_key(before, url@);
                }
                self.entries.push((url, path));
                proof {
                    let now = self.entries.deep_view();
                    assert(now.drop_last() =~= before);
                    assert(now.last().0 == url@ && now.last().1 == path@);
                    assert(forall|j: int|
                        0 <= j < before.len() ==> (#[trigger] before[j]).0 != url@);
                    assert(distinct_keys(now)) by {
                        assert(forall|j: int|
                            0 <= j < now.len() - 1 ==> #[trigger] now[j] == before[j]);
                    }
                }
            },
        }
    }

    /// The temp file recorded for `url`, without consuming the entry: the
    /// thumbnail shares its URL with the first file item and must not steal
    /// that item's entry.
    pub fn get(&self, url: &str) -> (r: Option<String>)
        requires
            self.wf(),
        ensures
            match r {
                Some(path) => self@.contains_key(url@) && path@ == self@[url@],
                None => !self@.contains_key(url@),
            },
    {
        match self.position(url) {
            Some(i) => {
                proof {
                    lemma_assoc_map_at(self.entries.deep_view(), i as int);
                }
                Some(self.entries[i].1.clone())
            },
            None => None,
        }
    }

    /// Takes the temp file recorded for `url` out of the mapping: the
    /// persistence stage consumes each entry exactly once.
    pub fn remove(&mut self, url: &str) -> (r: Option<String>)
        requires
            old(self).wf(),
        ensures
            final(self).wf(),
            match r {
                Some(path) => old(self)@.contains_key(url@) && path@ == old(self)@[url@]
                    && final(self)@ == old(self)@.remove(url@),
                None => !old(self)@.contains_key(url@) && final(self)@ == old(self)@,
            },
    {
        let ghost before = self.entries.deep_view();
        match self.position(url) {
            Some(i) => {
                proof {
                    lemma_assoc_map_at(before, i as int);
                    lemma_assoc_map_remove(before, i as int);
                }
                let (_, path) = self.entries.remove(i);
                proof {
                    assert(self.entries.deep_view() =~= before.remove(i as int));
                }
                Some(path)
            },
            None => None,
        }
    }
}

} // verus!
