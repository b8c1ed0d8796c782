//! Tag scoping: the platform's maturity-rating sentinels become lowercase,
//! platform-agnostic tags; every other tag is scoped to the current platform.

use vstd::prelude::*;
use vstd::string::*;

use crate::text::str_eq;

verus! {

/// One tag as the platform reports it.
#[derive(Debug, Clone)]
pub struct PixivTag {
    pub tag: String,
    pub locked: bool,
    pub deletable: bool,
}

/// The tag block of an artwork's metadata.
#[derive(Debug, Clone)]
pub struct PixivTags {
    pub author_id: String,
    pub is_locked: bool,
    pub writable: bool,
    pub tags: Vec<PixivTag>,
}

/// A tag as the archive stores it: a name, scoped to a platform unless the
/// tag is platform-agnostic.
#[derive(Debug, Clone)]
pub struct Tag {
    pub name: String,
    pub platform: Option<u64>,
}

/// How one tag name is scoped: the maturity sentinels `R-18` and `R-18G`
/// are lowercased and left unscoped, every other name keeps its spelling and
/// is scoped to `platform`.
pub open spec fn scoped_tag(name: Seq<char>, platform: u64) -> (Seq<char>, Option<u64>) {
    if name == "R-18"@ {
        ("r-18"@, None)
    } else if name == "R-18G"@ {
        ("r-18g"@, None)
    } else {
        (name, Some(platform))
    }
}

impl PixivTags {
    /// Scopes every tag of this block to `platform`, with the maturity
    /// sentinels normalized as `scoped_tag` states.
    pub fn into_tags(&self, platform: u64) -> (r: Vec<Tag>)
        ensures
            r@.len() == self.tags@.len(),
            forall|i: int|
                0 <= i < r@.len() ==> (#[trigger] r@[i].name@, r@[i].platform) == scoped_tag(
                    self.tags@[i].tag@,
                    platform,
                ),
    {
        let mut out: Vec<Tag> = Vec::new();
        let n = self.tags.len();
        let mut i: usize = 0;
        while i < n
            invariant
                0 <= i <= n,
                n == self.tags@.len(),
                out@.len() == i,
                forall|j: int|
                    0 <= j < i ==> (#[trigger] out@[j].name@, out@[j].platform) == scoped_tag(
                        self.tags@[j].tag@,
                        platform,
                    ),
            decreases n - i,
        {
            let name = &self.tags[i].tag;
            if str_eq(name.as_str(), "R-18") {
                out.push(Tag { name: String::from_str("r-18"), platform: None });
            } else if str_eq(name.as_str(), "R-18G") {
                out.push(Tag { name: String::from_str("r-18g"), platform: None });
            } else {
                out.push(Tag { name: name.clone(), platform: Some(platform) });
            }
            i += 1;
        }
        out
    }
}

} // verus!
