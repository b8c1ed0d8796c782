//! Comment handling: the endpoints that page through a comment tree, and the
//! assembly of one archived comment from a fetched record.

use vstd::prelude::*;
use vstd::string::*;

verus! {

/// One page of comments as the platform reports it.
#[derive(Debug, Clone)]
pub struct PixivComments {
    pub has_next: bool,
    pub comments: Vec<PixivComment>,
}

/// One comment record as the platform reports it.
#[derive(Debug, Clone)]
pub struct PixivComment {
    pub user_id: String,
    pub user_name: String,
    pub img: String,
    pub id: String,
    pub comment_date: String,
    pub comment_parent_id: Option<String>,
    pub editable: bool,
    pub has_replies: bool,
    pub content: String,
    pub stamp_id: Option<String>,
}

/// One archived comment: author, combined text, and its reply subtree.
#[derive(Debug)]
pub struct Comment {
    pub user: String,
    pub text: String,
    pub replies: Vec<Comment>,
}

/// The sticker suffix of a comment's text: `(Stamp N)` when the remote
/// comment carries a stamp, empty otherwise.
pub open spec fn stamp_suffix(stamp_id: Option<Seq<char>>) -> Seq<char> {
    match stamp_id {
        Some(id) => "(Stamp "@ + id + ")"@,
        None => Seq::<char>::empty(),
    }
}

/// A comment's combined text: content and stamp suffix joined by one space.
/// The space is always present, so a stamp-only comment's text begins with a
/// space and a plain comment's text ends with one.
pub open spec fn comment_text_spec(content: Seq<char>, stamp_id: Option<Seq<char>>) -> Seq<char> {
    content + " "@ + stamp_suffix(stamp_id)
}

/// Builds the combined text of one comment.
pub fn comment_text(content: &String, stamp_id: &Option<String>) -> (r: String)
    ensures
        r@ == comment_text_spec(content@, stamp_id.deep_view()),
{
    let mut r = content.clone();
    r.append(" ");
    match stamp_id {
        Some(id) => {
            r.append("(Stamp ");
            r.append(id.as_str());
            r.append(")");
        },
        None => {
            proof {
                assert(r@ =~= comment_text_spec(content@, stamp_id.deep_view()));
            }
        },
    }
    proof {
        assert(r@ =~= comment_text_spec(content@, stamp_id.deep_view()));
    }
    r
}

/// Assembles one archived comment from a fetched record and its already
/// assembled reply subtree.
pub fn build_comment(record: &PixivComment, replies: Vec<Comment>) -> (r: Comment)
    ensures
        r.user@ == record.user_name@,
        r.text@ == comment_text_spec(record.content@, record.stamp_id.deep_view()),
        r.replies == replies,
{
    Comment {
        user: record.user_name.clone(),
        text: comment_text(&record.content, &record.stamp_id),
        replies,
    }
}

/// The endpoint listing the root comments of artwork `id`, with the
/// page size the pipeline uses for roots.
pub open spec fn root_comments_url(id: Seq<char>, is_novel: bool) -> Seq<char> {
    if is_novel {
        "https://www.pixiv.net/ajax/novels/comments/roots?novel_id="@ + id
            + "&limit=4294967295"@
    } else {
        "https://www.pixiv.net/ajax/illusts/comments/roots?illust_id="@ + id
            + "&limit=4294967295"@
    }
}

/// The endpoint listing the replies of comment `id`.
pub open spec fn reply_comments_url(id: Seq<char>, is_novel: bool) -> Seq<char> {
    if is_novel {
        "https://www.pixiv.net/ajax/novels/comments/replies?comment_id="@ + id + "&page=1"@
    } else {
        "https://www.pixiv.net/ajax/illusts/comments/replies?comment_id="@ + id + "&page=1"@
    }
}

/// The comment-listing endpoint for `id`: the root listing of an artwork
/// when `is_root`, else the reply listing of a comment. The `is_novel`
/// context keeps the endpoint family of the artwork through the recursion.
pub fn comment_page_url(id: &str, is_novel: bool, is_root: bool) -> (r: String)
    ensures
        is_root ==> r@ == root_comments_url(id@, is_novel),
        !is_root ==> r@ == reply_comments_url(id@, is_novel),
{
    let mut r: String;
    if is_root {
        if is_novel {
            r = String::from_str("https://www.pixiv.net/ajax/novels/comments/roots?novel_id=");
        } else {
            r = String::from_str("https://www.pixiv.net/ajax/illusts/comments/roots?illust_id=");
        }
        r.append(id);
        r.append("&limit=4294967295");
    } else {
        if is_novel {
            r = String::from_str("https://www.pixiv.net/ajax/novels/comments/replies?comment_id=");
        } else {
            r = String::from_str(
                "https://www.pixiv.net/ajax/illusts/comments/replies?comment_id=",
            );
        }
        r.append(id);
        r.append("&page=1");
    }
    r
}

} // verus!
