use pixiv_archive::api::ArchiveError;
use pixiv_archive::api::NullableBody;
use pixiv_archive::api::PixivResponse;
use pixiv_archive::api::PixivResponseUnwrap;
use pixiv_archive::artwork::PixivArtworkId;
use pixiv_archive::favorite::favorite_artwork_ids;
use pixiv_archive::favorite::FavoriteKind;
use pixiv_archive::favorite::PixivFavoriteWork;
use pixiv_archive::favorite::PixivFavoriteWorkId;
use pixiv_archive::series::series_page_works;
use pixiv_archive::series::PixivIllustSeriesPageWork;
use pixiv_archive::series::PixivNovelSeriesPageWork;
use pixiv_archive::series::PixivSeriesPage;
use pixiv_archive::user::PixivUserArtworks;

#[test]
fn envelope_with_body_downcasts_to_it() {
    let r: PixivResponse<u32> = PixivResponse {
        error: false,
        message: String::new(),
        body: NullableBody::Value(5),
    };
    assert!(matches!(r.downcast(), Ok(5)));
}

#[test]
fn envelope_with_null_body_is_a_failure() {
    let r: PixivResponse<u32> = PixivResponse {
        error: true,
        message: String::from("not found"),
        body: NullableBody::Null,
    };
    match r.downcast() {
        Err(ArchiveError::InvalidResponse(msg)) => assert_eq!(msg, "not found"),
        _ => panic!("expected an invalid-response failure"),
    }
}

#[test]
fn envelope_error_flag_beats_a_present_body() {
    let r: PixivResponse<u32> = PixivResponse {
        error: true,
        message: String::from("session expired"),
        body: NullableBody::Value(5),
    };
    match r.downcast() {
        Err(ArchiveError::InvalidResponse(msg)) => assert_eq!(msg, "session expired"),
        _ => panic!("expected an invalid-response failure"),
    }
}

#[test]
fn unwrap_envelope_goes_by_the_error_flag() {
    let ok: PixivResponseUnwrap<u32> = PixivResponseUnwrap {
        error: false,
        message: String::new(),
        body: 9,
    };
    assert!(matches!(ok.downcast(), Ok(9)));
    let bad: PixivResponseUnwrap<u32> = PixivResponseUnwrap {
        error: true,
        message: String::from("rate limited"),
        body: 0,
    };
    match bad.downcast() {
        Err(ArchiveError::InvalidResponse(msg)) => assert_eq!(msg, "rate limited"),
        _ => panic!("expected an invalid-response failure"),
    }
}

/// Unreachable favorite: an entry whose id field is a numeric sentinel is
/// skipped and never enqueued as an artwork identifier.
#[test]
fn unreachable_favorite_is_skipped() {
    let works = vec![
        PixivFavoriteWork { id: PixivFavoriteWorkId::Common(String::from("11")) },
        PixivFavoriteWork { id: PixivFavoriteWorkId::Unreachable(999) },
        PixivFavoriteWork { id: PixivFavoriteWorkId::Common(String::from("22")) },
    ];
    let ids = favorite_artwork_ids(&works, FavoriteKind::Illusts).unwrap();
    assert_eq!(ids, vec![PixivArtworkId::Illust(11), PixivArtworkId::Illust(22)]);
}

#[test]
fn novel_favorites_tagged_as_novels() {
    let works = vec![PixivFavoriteWork { id: PixivFavoriteWorkId::Common(String::from("7")) }];
    let ids = favorite_artwork_ids(&works, FavoriteKind::Novels).unwrap();
    assert_eq!(ids, vec![PixivArtworkId::Novel(7)]);
}

#[test]
fn malformed_favorite_id_rejected() {
    let works = vec![PixivFavoriteWork { id: PixivFavoriteWorkId::Common(String::from("7a")) }];
    assert!(favorite_artwork_ids(&works, FavoriteKind::Illusts).is_none());
}

#[test]
fn series_page_lists_both_families() {
    let page = PixivSeriesPage {
        total: 3,
        series: vec![
            PixivIllustSeriesPageWork { work_id: String::from("5") },
            PixivIllustSeriesPageWork { work_id: String::from("6") },
        ],
        series_contents: vec![PixivNovelSeriesPageWork { id: String::from("7") }],
    };
    let ids = series_page_works(&page).unwrap();
    assert_eq!(
        ids,
        vec![
            PixivArtworkId::Illust(5),
            PixivArtworkId::Illust(6),
            PixivArtworkId::Novel(7)
        ]
    );
}

#[test]
fn malformed_series_work_id_rejected() {
    let page = PixivSeriesPage {
        total: 1,
        series: vec![PixivIllustSeriesPageWork { work_id: String::from("x") }],
        series_contents: Vec::new(),
    };
    assert!(series_page_works(&page).is_none());
}

#[test]
fn user_profile_listing() {
    let artworks = PixivUserArtworks {
        illusts: Some(vec![String::from("1"), String::from("2")]),
        manga: Some(vec![String::from("3")]),
        novels: Some(vec![String::from("4")]),
    };
    let ids = artworks.list().unwrap();
    assert_eq!(
        ids,
        vec![
            PixivArtworkId::Illust(1),
            PixivArtworkId::Illust(2),
            PixivArtworkId::Illust(3),
            PixivArtworkId::Novel(4)
        ]
    );
}

#[test]
fn user_profile_listing_with_absent_blocks() {
    let artworks = PixivUserArtworks { illusts: None, manga: None, novels: None };
    assert!(artworks.list().unwrap().is_empty());
}

#[test]
fn user_profile_listing_with_bad_key() {
    let artworks = PixivUserArtworks {
        illusts: Some(vec![String::from("oops")]),
        manga: None,
        novels: None,
    };
    assert!(artworks.list().is_none());
}
