use pixiv_archive::artwork::PixivArtworkId;
use pixiv_archive::artwork::pages_url;
use pixiv_archive::artwork::ugoira_url;
use pixiv_archive::comment::comment_page_url;
use pixiv_archive::favorite::FavoriteKind;
use pixiv_archive::favorite::favorite_page_url;
use pixiv_archive::favorite::following_page_url;
use pixiv_archive::favorite::settings_url;
use pixiv_archive::series::PixivSeriesId;
use pixiv_archive::user::author_link_url;
use pixiv_archive::user::user_profile_url;

#[test]
fn illust_artwork_urls() {
    let id = PixivArtworkId::Illust(123456);
    assert_eq!(id.id(), 123456);
    assert_eq!(id.name(), "Illust");
    assert_eq!(id.url(), "https://www.pixiv.net/artworks/123456");
    assert_eq!(id.api_url(), "https://www.pixiv.net/ajax/illust/123456");
}

#[test]
fn novel_artwork_urls() {
    let id = PixivArtworkId::Novel(42);
    assert_eq!(id.id(), 42);
    assert_eq!(id.name(), "Novel");
    assert_eq!(id.url(), "https://www.pixiv.net/novel/show.php?id=42");
    assert_eq!(id.api_url(), "https://www.pixiv.net/ajax/novel/42");
}

#[test]
fn series_source_urls() {
    assert_eq!(
        PixivSeriesId::Illust(9).url(),
        "https://www.pixiv.net/series/9"
    );
    assert_eq!(
        PixivSeriesId::Novel(9).url(),
        "https://www.pixiv.net/novel/series/9"
    );
    assert_eq!(PixivSeriesId::Illust(9).id(), 9);
}

#[test]
fn page_and_ugoira_endpoints() {
    assert_eq!(
        pages_url("77"),
        "https://www.pixiv.net/ajax/illust/77/pages?lang=ja"
    );
    assert_eq!(
        ugoira_url("77"),
        "https://www.pixiv.net/ajax/illust/77/ugoira_meta"
    );
}

#[test]
fn comment_endpoints() {
    assert_eq!(
        comment_page_url("10", false, true),
        "https://www.pixiv.net/ajax/illusts/comments/roots?illust_id=10&limit=4294967295"
    );
    assert_eq!(
        comment_page_url("10", true, true),
        "https://www.pixiv.net/ajax/novels/comments/roots?novel_id=10&limit=4294967295"
    );
    assert_eq!(
        comment_page_url("55", false, false),
        "https://www.pixiv.net/ajax/illusts/comments/replies?comment_id=55&page=1"
    );
    assert_eq!(
        comment_page_url("55", true, false),
        "https://www.pixiv.net/ajax/novels/comments/replies?comment_id=55&page=1"
    );
}

#[test]
fn user_endpoints() {
    assert_eq!(
        user_profile_url(31337),
        "https://www.pixiv.net/ajax/user/31337/profile/all?lang=ja"
    );
    assert_eq!(
        author_link_url("31337"),
        "https://www.pixiv.net/users/31337"
    );
}

#[test]
fn current_user_endpoints() {
    assert_eq!(
        settings_url(),
        "https://www.pixiv.net/ajax/settings/self?lang=zh_tw"
    );
    assert_eq!(
        favorite_page_url(5, FavoriteKind::Illusts, 200),
        "https://www.pixiv.net/ajax/user/5/illusts/bookmarks?tag=&offset=200&limit=100&rest=show"
    );
    assert_eq!(
        favorite_page_url(5, FavoriteKind::Novels, 0),
        "https://www.pixiv.net/ajax/user/5/novels/bookmarks?tag=&offset=0&limit=100&rest=show"
    );
    assert_eq!(
        following_page_url(5, 100),
        "https://www.pixiv.net/ajax/user/5/following?tag=&offset=100&limit=100&rest=show"
    );
}
