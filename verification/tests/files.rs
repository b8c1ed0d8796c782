use pixiv_archive::artwork::build_illust_contents;
use pixiv_archive::artwork::build_novel_contents;
use pixiv_archive::artwork::build_ugoira_contents;
use pixiv_archive::artwork::pages_to_file_metas;
use pixiv_archive::artwork::parse_cover;
use pixiv_archive::artwork::url_into_file_meta;
use pixiv_archive::artwork::PixivIllustPageUrls;
use pixiv_archive::artwork::PixivIllustPages;
use pixiv_archive::file::collect_file_requests;
use pixiv_archive::file::download_step;
use pixiv_archive::file::needs_resize;
use pixiv_archive::file::ArchiveRequest;
use pixiv_archive::file::Content;
use pixiv_archive::file::DownloadStep;
use pixiv_archive::file::FileMeta;
use pixiv_archive::file::PixivUgoira;
use pixiv_archive::file::PixivUgoiraFrame;
use pixiv_archive::file::TempFileMap;

fn page(url: &str, w: u32, h: u32) -> PixivIllustPages {
    PixivIllustPages {
        urls: PixivIllustPageUrls {
            original: String::from(url),
            regular: String::new(),
            small: String::new(),
            thumb_mini: String::new(),
        },
        width: w,
        height: h,
    }
}

#[test]
fn download_steps_per_request() {
    let plain = ArchiveRequest::Image(String::from("https://example.net/a.png"));
    assert_eq!(download_step(&plain), DownloadStep::Keep);
    let sized = ArchiveRequest::ImageWithSize {
        url: String::from("https://example.net/a.png"),
        width: 427,
        height: 600,
    };
    assert_eq!(download_step(&sized), DownloadStep::FitTo { width: 427, height: 600 });
    let animated = ArchiveRequest::Ugoira { url: String::from("u"), frames: Vec::new() };
    // frame reassembly is the explicitly unsupported path
    assert_eq!(download_step(&animated), DownloadStep::Unsupported);
}

/// Resize skip: a download whose decoded dimensions already equal the
/// requested target performs no resize write.
#[test]
fn resize_skipped_when_dimensions_match() {
    assert!(!needs_resize(427, 600, 427, 600));
    assert!(needs_resize(428, 600, 427, 600));
    assert!(needs_resize(427, 601, 427, 600));
}

#[test]
fn file_name_from_url() {
    let meta = url_into_file_meta(
        String::from("https://i.pximg.net/img-original/img/2020/01/02/03/04/05/77_p0.jpg"),
        None,
        None,
    )
    .unwrap();
    assert_eq!(meta.filename, "77_p0.jpg");
    assert_eq!(meta.mime, "image/jpeg");
    assert!(matches!(meta.data, ArchiveRequest::Image(u) if u.ends_with("77_p0.jpg")));
    assert!(meta.extra.is_empty());
}

#[test]
fn file_name_unresolvable_url() {
    assert!(url_into_file_meta(String::from("not a url"), None, None).is_none());
}

#[test]
fn forced_file_name_and_size() {
    let meta = url_into_file_meta(
        String::from("https://example.net/x"),
        Some(String::from("cover.jpg")),
        Some((427, 600)),
    )
    .unwrap();
    assert_eq!(meta.filename, "cover.jpg");
    assert_eq!(meta.mime, "image/jpeg");
    assert!(matches!(
        meta.data,
        ArchiveRequest::ImageWithSize { width: 427, height: 600, .. }
    ));
}

#[test]
fn cover_descriptor() {
    let cover = parse_cover("https://example.net/cover-source");
    assert_eq!(cover.filename, "cover.jpg");
    assert_eq!(cover.mime, "image/jpeg");
    assert!(matches!(
        cover.data,
        ArchiveRequest::ImageWithSize { width: 427, height: 600, .. }
    ));
    assert_eq!(cover.extra.len(), 2);
    assert_eq!(cover.extra[0], (String::from("width"), 427));
    assert_eq!(cover.extra[1], (String::from("height"), 600));
}

#[test]
fn pages_become_file_metas() {
    let pages = vec![
        page("https://i.pximg.net/img-original/img/a/1_p0.png", 800, 600),
        page("https://i.pximg.net/img-original/img/a/1_p1.png", 1024, 768),
    ];
    let metas = pages_to_file_metas(&pages).unwrap();
    assert_eq!(metas.len(), 2);
    assert_eq!(metas[0].filename, "1_p0.png");
    assert_eq!(metas[0].mime, "image/png");
    assert_eq!(metas[0].extra[0], (String::from("width"), 800));
    assert_eq!(metas[0].extra[1], (String::from("height"), 600));
    assert_eq!(metas[1].filename, "1_p1.png");
}

#[test]
fn illust_contents_assembly() {
    let pages = vec![page("https://i.pximg.net/img/7_p0.png", 10, 20)];
    let metas = pages_to_file_metas(&pages).unwrap();
    let (contents, thumb) = build_illust_contents("desc", metas);
    assert_eq!(contents.len(), 2);
    assert!(matches!(&contents[0], Content::Text(t) if t == "> desc"));
    assert!(matches!(&contents[1], Content::File(f) if f.filename == "7_p0.png"));
    assert_eq!(thumb.unwrap().filename, "7_p0.png");
}

#[test]
fn illust_contents_without_pages_have_no_thumb() {
    let (contents, thumb) = build_illust_contents("d", Vec::new());
    assert_eq!(contents.len(), 1);
    assert!(thumb.is_none());
}

#[test]
fn ugoira_contents_assembly() {
    let pages = vec![page("https://i.pximg.net/img/9_p0.png", 10, 20)];
    let metas = pages_to_file_metas(&pages).unwrap();
    let ugoira = PixivUgoira {
        original_src: String::from("https://i.pximg.net/img/9_ugoira.zip"),
        src: String::new(),
        mime_type: String::from("application/zip"),
        frames: vec![PixivUgoiraFrame { delay: 40, file: String::from("000000.jpg") }],
    };
    let (contents, thumb) = build_ugoira_contents("d", metas, ugoira).unwrap();
    assert_eq!(contents.len(), 2);
    match &contents[1] {
        Content::File(f) => {
            assert_eq!(f.filename, "ugoira.webm");
            assert_eq!(f.mime, "video/webm");
            assert!(matches!(&f.data, ArchiveRequest::Ugoira { frames, .. } if frames.len() == 1));
            // the item borrows the first page's extra metadata
            assert_eq!(f.extra[0], (String::from("width"), 10));
        },
        _ => panic!("expected a file item"),
    }
    assert_eq!(thumb.unwrap().filename, "9_p0.png");
}

#[test]
fn ugoira_without_pages_fails() {
    let ugoira = PixivUgoira {
        original_src: String::new(),
        src: String::new(),
        mime_type: String::new(),
        frames: Vec::new(),
    };
    assert!(build_ugoira_contents("d", Vec::new(), ugoira).is_none());
}

#[test]
fn novel_contents_assembly() {
    let (contents, thumb) =
        build_novel_contents("about", &String::from("body text"), "https://example.net/c");
    assert_eq!(contents.len(), 3);
    assert!(matches!(&contents[0], Content::Text(t) if t == "> about"));
    assert!(matches!(&contents[1], Content::Text(t) if t == "body text"));
    // the cover is a content item at the fixed target size, and doubles as
    // the thumbnail
    match &contents[2] {
        Content::File(f) => {
            assert_eq!(f.filename, "cover.jpg");
            assert!(matches!(
                f.data,
                ArchiveRequest::ImageWithSize { width: 427, height: 600, .. }
            ));
        },
        _ => panic!("expected the cover file item"),
    }
    assert_eq!(thumb.unwrap().filename, "cover.jpg");
}

#[test]
fn batch_collects_files_then_thumb() {
    let meta_a = FileMeta {
        filename: String::from("a.png"),
        mime: String::from("image/png"),
        data: ArchiveRequest::Image(String::from("https://example.net/a.png")),
        extra: Vec::new(),
    };
    let meta_b = FileMeta {
        filename: String::from("b.png"),
        mime: String::from("image/png"),
        data: ArchiveRequest::Image(String::from("https://example.net/b.png")),
        extra: Vec::new(),
    };
    let thumb = FileMeta {
        filename: String::from("a.png"),
        mime: String::from("image/png"),
        data: ArchiveRequest::Image(String::from("https://example.net/a.png")),
        extra: Vec::new(),
    };
    let contents = vec![
        Content::Text(String::from("> d")),
        Content::File(meta_a),
        Content::File(meta_b),
    ];
    let reqs = collect_file_requests(&contents, &Some(thumb));
    let urls: Vec<&str> = reqs.iter().map(|r| r.url()).collect();
    assert_eq!(
        urls,
        vec![
            "https://example.net/a.png",
            "https://example.net/b.png",
            "https://example.net/a.png"
        ]
    );
}

#[test]
fn empty_batch_has_no_requests() {
    let reqs = collect_file_requests(&Vec::new(), &None);
    assert!(reqs.is_empty());
}

#[test]
fn temp_file_map_semantics() {
    let mut map = TempFileMap::new();
    assert!(!map.contains("u1"));
    map.insert(String::from("u1"), String::from("/tmp/a"));
    map.insert(String::from("u2"), String::from("/tmp/b"));
    assert!(map.contains("u1"));
    // a later entry for the same URL overrides the earlier one
    map.insert(String::from("u1"), String::from("/tmp/c"));
    assert_eq!(map.remove("u1"), Some(String::from("/tmp/c")));
    // each entry is consumed exactly once
    assert_eq!(map.remove("u1"), None);
    assert_eq!(map.remove("u2"), Some(String::from("/tmp/b")));
}
