use pixiv_archive::favorite::OffsetPager;
use pixiv_archive::series::PixivSeriesId;
use pixiv_archive::series::SeriesPager;

/// Pagination termination: a series whose reported total is 25 with page
/// size 12 is fetched in exactly 3 page requests, at offsets 0, 12 and 24,
/// and then the pager stops.
#[test]
fn series_total_25_takes_three_requests() {
    let mut pager = SeriesPager::new(PixivSeriesId::Illust(1));
    let mut urls: Vec<String> = Vec::new();
    while pager.has_more() {
        let url = pager.next_request();
        urls.push(url);
        pager.apply_total(25);
    }
    assert_eq!(urls.len(), 3);
    assert_eq!(urls[0], "https://www.pixiv.net/ajax/series/1?lang=ja&p=1");
    assert_eq!(urls[1], "https://www.pixiv.net/ajax/series/1?lang=ja&p=2");
    assert_eq!(urls[2], "https://www.pixiv.net/ajax/series/1?lang=ja&p=3");
    // 1-based pages over a size-12 window: the requested offsets are 0, 12, 24
    for (i, _) in urls.iter().enumerate() {
        assert_eq!((i as u64) * 12, [0, 12, 24][i]);
    }
}

#[test]
fn novel_series_offsets_step_by_thirty() {
    let mut pager = SeriesPager::new(PixivSeriesId::Novel(7));
    let mut urls: Vec<String> = Vec::new();
    while pager.has_more() {
        let url = pager.next_request();
        urls.push(url);
        pager.apply_total(61);
    }
    assert_eq!(urls.len(), 3);
    assert_eq!(
        urls[0],
        "https://www.pixiv.net/ajax/novel/series_content/7?lang=ja&last_order=0&order_by=asc"
    );
    assert_eq!(
        urls[1],
        "https://www.pixiv.net/ajax/novel/series_content/7?lang=ja&last_order=30&order_by=asc"
    );
    assert_eq!(
        urls[2],
        "https://www.pixiv.net/ajax/novel/series_content/7?lang=ja&last_order=60&order_by=asc"
    );
}

#[test]
fn series_total_zero_takes_one_request() {
    let mut pager = SeriesPager::new(PixivSeriesId::Illust(1));
    let mut count = 0usize;
    while pager.has_more() {
        let _ = pager.next_request();
        count += 1;
        pager.apply_total(0);
    }
    assert_eq!(count, 1);
}

#[test]
fn offset_pager_walks_one_page_past_the_total() {
    // the bookmark listing keeps fetching while the offset of the page just
    // fetched has not passed the reported total
    let mut pager = OffsetPager::new();
    let mut offsets: Vec<u64> = Vec::new();
    while pager.has_more() {
        let offset = pager.advance();
        offsets.push(offset);
        pager.apply_total(250);
    }
    assert_eq!(offsets, vec![0, 100, 200, 300]);
}

#[test]
fn offset_pager_empty_listing_stops_after_two() {
    let mut pager = OffsetPager::new();
    let mut offsets: Vec<u64> = Vec::new();
    while pager.has_more() {
        let offset = pager.advance();
        offsets.push(offset);
        pager.apply_total(0);
    }
    assert_eq!(offsets, vec![0, 100]);
}
