//! The platform's response envelope, the errors the pipeline reports, and
//! the client-hint headers derived from a user-agent string.

use vstd::prelude::*;
use vstd::string::*;

use crate::text::after_first;
use crate::text::before_first;
use crate::text::char_idx;
use crate::text::find_char;
use crate::text::find_token_with_prefix;
use crate::text::first_with_prefix;
use crate::text::is_substr;
use crate::text::lemma_char_idx_bounds;
use crate::text::split_ws;
use crate::text::split_ws_spec;
use crate::text::str_contains;

verus! {

/// The errors the pipeline reports for one unit of work.
#[derive(Debug)]
pub enum ArchiveError {
    /// The envelope flagged an error or carried no body; the diagnostic
    /// text is the envelope's message.
    InvalidResponse(String),
}

/// An envelope body that may be null or absent.
#[derive(Debug, Clone)]
pub enum NullableBody<T> {
    Value(T),
    Null,
}

/// The platform's response envelope with a nullable body: a set error flag
/// or a null/absent body is a failure carrying the envelope's message,
/// never a valid value.
#[derive(Debug, Clone)]
pub struct PixivResponse<T> {
    pub error: bool,
    pub message: String,
    pub body: NullableBody<T>,
}

impl<T> PixivResponse<T> {
    /// The body of the envelope when the envelope flags no error and the
    /// body is present; the envelope's message as the failure otherwise.
    pub fn downcast(self) -> (r: Result<T, ArchiveError>)
        ensures
            r == (if self.error {
                Err::<T, ArchiveError>(ArchiveError::InvalidResponse(self.message))
            } else {
                match self.body {
                    NullableBody::Value(b) => Ok::<T, ArchiveError>(b),
                    NullableBody::Null => Err::<T, ArchiveError>(
                        ArchiveError::InvalidResponse(self.message),
                    ),
                }
            }),
    {
        if self.error {
            Err(ArchiveError::InvalidResponse(self.message))
        } else {
            match self.body {
                NullableBody::Value(body) => Ok(body),
                NullableBody::Null => Err(ArchiveError::InvalidResponse(self.message)),
            }
        }
    }
}

/// The platform's response envelope with a mandatory body: the error flag
/// alone decides failure.
#[derive(Debug, Clone)]
pub struct PixivResponseUnwrap<T> {
    pub error: bool,
    pub message: String,
    pub body: T,
}

impl<T> PixivResponseUnwrap<T> {
    /// The body of the envelope, or the envelope's message as the failure.
    pub fn downcast(self) -> (r: Result<T, ArchiveError>)
        ensures
            self.error ==> (r matches Err(e) && e == ArchiveError::InvalidResponse(self.message)),
            !self.error ==> (r matches Ok(v) && v == self.body),
    {
        if self.error {
            Err(ArchiveError::InvalidResponse(self.message))
        } else {
            Ok(self.body)
        }
    }
}

// ---------------------------------------------------------------------------
// Client-hint headers derived from the user-agent string
// ---------------------------------------------------------------------------

/// The platform family a user-agent string claims.
#[derive(Debug, Clone, Copy, PartialEq, Eq, Structural)]
pub enum UaPlatform {
    Windows,
    Mac,
    Linux,
    Unknown,
}

/// The platform family of a user-agent string, by substring probes in
/// order.
pub open spec fn platform_of(ua: Seq<char>) -> UaPlatform {
    if is_substr(ua, "Windows"@) || is_substr(ua, "Win64"@) {
        UaPlatform::Windows
    } else if is_substr(ua, "Macintosh"@) || is_substr(ua, "Mac OS X"@) {
        UaPlatform::Mac
    } else if is_substr(ua, "Linux"@) || is_substr(ua, "X11"@) {
        UaPlatform::Linux
    } else {
        UaPlatform::Unknown
    }
}

/// The quoted platform name sent in the platform client hint.
pub open spec fn platform_value(p: UaPlatform) -> Seq<char> {
    match p {
        UaPlatform::Windows => "\"Windows\""@,
        UaPlatform::Mac => "\"macOS\""@,
        UaPlatform::Linux => "\"Linux\""@,
        UaPlatform::Unknown => "\"Unknown\""@,
    }
}

/// The mobile client hint: set exactly when the user-agent claims a mobile
/// device.
pub open spec fn mobile_value(ua: Seq<char>) -> Seq<char> {
    if is_substr(ua, "Mobile"@) {
        "?1"@
    } else {
        "?0"@
    }
}

/// The browser family a user-agent string claims.
#[derive(Debug, Clone, Copy, PartialEq, Eq, Structural)]
pub enum UaBrowser {
    Edge,
    Chromium,
    Firefox,
    Safari,
    Unknown,
}

/// The browser family of a user-agent string, by substring probes in
/// order.
pub open spec fn browser_of(ua: Seq<char>) -> UaBrowser {
    if is_substr(ua, "Edg/"@) {
        UaBrowser::Edge
    } else if is_substr(ua, "Chrome/"@) {
        UaBrowser::Chromium
    } else if is_substr(ua, "Firefox/"@) {
        UaBrowser::Firefox
    } else if is_substr(ua, "Safari/"@) && !is_substr(ua, "Chrome/"@) {
        UaBrowser::Safari
    } else {
        UaBrowser::Unknown
    }
}

/// The token the version is searched under: the user-agent part that starts
/// with this token carries the version.
pub open spec fn browser_token(b: UaBrowser) -> Seq<char> {
    match b {
        UaBrowser::Edge => "Edg"@,
        UaBrowser::Chromium => "Chromium"@,
        UaBrowser::Firefox => "Firefox"@,
        UaBrowser::Safari => "Safari"@,
        UaBrowser::Unknown => "Unknown"@,
    }
}

/// The brand name written into the brand list for each browser family.
pub open spec fn brand_name(b: UaBrowser) -> Seq<char> {
    match b {
        UaBrowser::Edge => "Microsoft Edge"@,
        UaBrowser::Chromium => "Google Chrome"@,
        UaBrowser::Firefox => "Firefox"@,
        UaBrowser::Safari => "Safari"@,
        UaBrowser::Unknown => "Unknown"@,
    }
}

/// The second slash-separated field of `s`, when `s` has at least one
/// slash: what `s.split('/').nth(1)` yields.
pub open spec fn second_slash_field(s: Seq<char>) -> Option<Seq<char>> {
    match after_first(s, '/') {
        Some(rest) => Some(before_first(rest, '/')),
        None => None,
    }
}

/// The major version the user-agent claims for its browser family: the
/// whitespace token starting with the family's token (falling back to
/// `Unknown/12`), cut after its first slash (falling back to `12`), cut
/// before its first dot.
pub open spec fn version_of(ua: Seq<char>) -> Seq<char> {
    let tok = match first_with_prefix(split_ws_spec(ua), browser_token(browser_of(ua))) {
        Some(t) => t,
        None => "Unknown/12"@,
    };
    let field = match second_slash_field(tok) {
        Some(f) => f,
        None => "12"@,
    };
    before_first(field, '.')
}

/// The brand-list client hint: a Chromium brand with the claimed version,
/// the browser family's own brand with the same version, and the
/// conventional filler brand.
pub open spec fn sec_ch_ua_of(ua: Seq<char>) -> Seq<char> {
    "\"Chromium\";v=\""@ + version_of(ua) + "\","@ + "\""@ + brand_name(browser_of(ua))
        + "\";v=\""@ + version_of(ua) + "\""@ + ", \"Not_A Brand\";v=\"99\""@
}

/// The client-hint header values derived from a user-agent string; the
/// surrounding process puts them, with the fixed headers and the session
/// cookie, on every request.
#[derive(Debug, Clone)]
pub struct UserAgentHints {
    pub platform: String,
    pub mobile: String,
    pub sec_ch_ua: String,
}

fn browser_of_exec(ua: &str) -> (r: UaBrowser)
    ensures
        r == browser_of(ua@),
{
    if str_contains(ua, "Edg/") {
        UaBrowser::Edge
    } else if str_contains(ua, "Chrome/") {
        UaBrowser::Chromium
    } else if str_contains(ua, "Firefox/") {
        UaBrowser::Firefox
    } else if str_contains(ua, "Safari/") && !str_contains(ua, "Chrome/") {
        UaBrowser::Safari
    } else {
        UaBrowser::Unknown
    }
}

fn version_of_exec(ua: &str) -> (r: String)
    ensures
        r@ == version_of(ua@),
{
    let browser = browser_of_exec(ua);
    let token_str: &'static str = match browser {
        UaBrowser::Edge => "Edg",
        UaBrowser::Chromium => "Chromium",
        UaBrowser::Firefox => "Firefox",
        UaBrowser::Safari => "Safari",
        UaBrowser::Unknown => "Unknown",
    };
    let toks = split_ws(ua);
    let tok: String = match find_token_with_prefix(&toks, token_str) {
        Some(t) => t,
        None => String::from_str("Unknown/12"),
    };
    let n = tok.as_str().unicode_len();
    let slash = find_char(tok.as_str(), '/');
    let field: String;
    if slash == n {
        proof {
            lemma_char_idx_bounds(tok@, '/');
        }
        field = String::from_str("12");
    } else {
        proof {
            lemma_char_idx_bounds(tok@, '/');
        }
        let rest = tok.as_str().substring_char(slash + 1, n);
        let next = find_char(rest, '/');
        proof {
            lemma_char_idx_bounds(rest@, '/');
        }
        field = String::from_str(rest.substring_char(0, next));
    }
    let m = field.as_str().unicode_len();
    let dot = find_char(field.as_str(), '.');
    proof {
        lemma_char_idx_bounds(field@, '.');
    }
    let version = String::from_str(field.as_str().substring_char(0, dot));
    proof {
        assert(version@ =~= before_first(field@, '.'));
    }
    version
}

/// Derives the client-hint header values from a user-agent string: the
/// platform and mobile hints by substring probes, and the brand list with
/// the version extracted from the family's own token.
pub fn generate_user_headers(user_agent: &str) -> (r: UserAgentHints)
    ensures
        r.platform@ == platform_value(platform_of(user_agent@)),
        r.mobile@ == mobile_value(user_agent@),
        r.sec_ch_ua@ == sec_ch_ua_of(user_agent@),
{
    let platform: &'static str = if str_contains(user_agent, "Windows") || str_contains(
        user_agent,
        "Win64",
    ) {
        "\"Windows\""
    } else if str_contains(user_agent, "Macintosh") || str_contains(user_agent, "Mac OS X") {
        "\"macOS\""
    } else if str_contains(user_agent, "Linux") || str_contains(user_agent, "X11") {
        "\"Linux\""
    } else {
        "\"Unknown\""
    };

    let mobile: &'static str = if str_contains(user_agent, "Mobile") {
        "?1"
    } else {
        "?0"
    };

    let browser = browser_of_exec(user_agent);
    let version = version_of_exec(user_agent);

    let mut ua = String::from_str("\"Chromium\";v=\"");
    ua.append(version.as_str());
    ua.append("\",");
    ua.append("\"");
    match browser {
        UaBrowser::Edge => ua.append("Microsoft Edge"),
        UaBrowser::Chromium => ua.append("Google Chrome"),
        UaBrowser::Firefox => ua.append("Firefox"),
        UaBrowser::Safari => ua.append("Safari"),
        UaBrowser::Unknown => ua.append("Unknown"),
    }
    ua.append("\";v=\"");
    ua.append(version.as_str());
    ua.append("\"");
    ua.append(", \"Not_A Brand\";v=\"99\"");

    UserAgentHints {
        platform: String::from_str(platform),
        mobile: String::from_str(mobile),
        sec_ch_ua: ua,
    }
}

} // verus!
