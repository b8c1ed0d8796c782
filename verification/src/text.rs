//! Character-level text utilities shared by the whole pipeline: decimal
//! rendering and parsing of identifiers, substring search, whitespace
//! handling, and the line-quoting used for artwork descriptions.

use vstd::prelude::*;
use vstd::string::*;

verus! {

// ---------------------------------------------------------------------------
// Decimal rendering of unsigned identifiers
// ---------------------------------------------------------------------------

/// The character for one decimal digit value.
pub open spec fn digit_char(d: nat) -> char {
    if d == 0 {
        '0'
    } else if d == 1 {
        '1'
    } else if d == 2 {
        '2'
    } else if d == 3 {
        '3'
    } else if d == 4 {
        '4'
    } else if d == 5 {
        '5'
    } else if d == 6 {
        '6'
    } else if d == 7 {
        '7'
    } else if d == 8 {
        '8'
    } else {
        '9'
    }
}

/// The decimal digit string of `n`, most significant digit first, with no
/// leading zeros (a single `'0'` for zero).
pub open spec fn dec_digits(n: nat) -> Seq<char>
    decreases n,
{
    if n < 10 {
        seq![digit_char(n)]
    } else {
        dec_digits(n / 10) + seq![digit_char(n % 10)]
    }
}

fn digit_str(d: u64) -> (r: &'static str)
    requires
        d < 10,
    ensures
        r@ == seq![digit_char(d as nat)],
{
    proof {
        reveal_strlit("0");
        reveal_strlit("1");
        reveal_strlit("2");
        reveal_strlit("3");
        reveal_strlit("4");
        reveal_strlit("5");
        reveal_strlit("6");
        reveal_strlit("7");
        reveal_strlit("8");
        reveal_strlit("9");
    }
    let r = match d {
        0 => "0",
        1 => "1",
        2 => "2",
        3 => "3",
        4 => "4",
        5 => "5",
        6 => "6",
        7 => "7",
        8 => "8",
        _ => "9",
    };
    proof {
        assert(r@ =~= seq![digit_char(d as nat)]);
    }
    r
}

/// Renders `n` in decimal, exactly as the platform's URLs spell identifiers.
pub fn u64_to_dec(n: u64) -> (r: String)
    ensures
        r@ == dec_digits(n as nat),
    decreases n,
{
    if n < 10 {
        String::from_str(digit_str(n))
    } else {
        let mut s = u64_to_dec(n / 10);
        s.append(digit_str(n % 10));
        s
    }
}

// ---------------------------------------------------------------------------
// Decimal parsing of identifiers received as JSON strings
// ---------------------------------------------------------------------------

/// Whether `c` is an ASCII decimal digit.
pub open spec fn is_dec_digit(c: char) -> bool {
    '0' as u32 <= c as u32 && c as u32 <= '9' as u32
}

/// The numeric value of a decimal digit character.
pub open spec fn digit_val(c: char) -> nat {
    (c as u32 - '0' as u32) as nat
}

/// Whether every character of `s` is an ASCII decimal digit.
pub open spec fn all_dec_digits(s: Seq<char>) -> bool {
    forall|i: int| 0 <= i < s.len() ==> is_dec_digit(#[trigger] s[i])
}

/// The numeric value of a digit string, most significant digit first.
pub open spec fn dec_val(s: Seq<char>) -> nat
    decreases s.len(),
{
    if s.len() == 0 {
        0
    } else {
        dec_val(s.drop_last()) * 10 + digit_val(s.last())
    }
}

proof fn lemma_dec_val_prefix_grows(s: Seq<char>, i: int)
    requires
        0 <= i <= s.len(),
    ensures
        dec_val(s.subrange(0, i)) <= dec_val(s),
    decreases s.len() - i,
{
    if i < s.len() {
        lemma_dec_val_prefix_grows(s, i + 1);
        let p = s.subrange(0, i + 1);
        assert(p.drop_last() =~= s.subrange(0, i));
        assert(dec_val(s.subrange(0, i)) * 10 <= dec_val(p.drop_last()) * 10 + digit_val(
            p.last(),
        ));
    } else {
        assert(s.subrange(0, i) =~= s);
    }
}

/// Parses a string of ASCII decimal digits into a `u64`.
///
/// Returns `Some` exactly on nonempty all-digit strings whose value fits;
/// this is the numeric form the platform uses for ids inside JSON strings.
pub fn parse_u64(s: &str) -> (r: Option<u64>)
    ensures
        r is Some <==> s@.len() > 0 && all_dec_digits(s@) && dec_val(s@) <= u64::MAX,
        r matches Some(v) ==> v as nat == dec_val(s@),
{
    let n = s.unicode_len();
    if n == 0 {
        return None;
    }
    let mut acc: u64 = 0;
    let mut i: usize = 0;
    while i < n
        invariant
            0 <= i <= n,
            n == s@.len(),
            all_dec_digits(s@.subrange(0, i as int)),
            acc as nat == dec_val(s@.subrange(0, i as int)),
        decreases n - i,
    {
        let c = s.get_char(i);
        let cv = c as u32;
        if cv < '0' as u32 || cv > '9' as u32 {
            proof {
                assert(!is_dec_digit(s@[i as int]));
            }
            return None;
        }
        let d = (cv - '0' as u32) as u64;
        if acc > (u64::MAX - d) / 10 {
            proof {
                let p = s@.subrange(0, i as int + 1);
                assert(p.drop_last() =~= s@.subrange(0, i as int));
                assert(p.last() == s@[i as int]);
                assert(dec_val(p) == acc as nat * 10 + d as nat);
                assert(acc as nat * 10 + d as nat > u64::MAX as nat);
                lemma_dec_val_prefix_grows(s@, i as int + 1);
            }
            return None;
        }
        proof {
            let p = s@.subrange(0, i as int + 1);
            assert(p.drop_last() =~= s@.subrange(0, i as int));
            assert(p.last() == s@[i as int]);
            assert(forall|j: int|
                0 <= j < p.len() ==> is_dec_digit(#[trigger] s@.subrange(0, i as int + 1)[j]));
        }
        acc = acc * 10 + d;
        i += 1;
    }
    proof {
        assert(s@.subrange(0, n as int) =~= s@);
    }
    Some(acc)
}

proof fn lemma_digit_char_val(d: nat)
    requires
        d < 10,
    ensures
        digit_val(digit_char(d)) == d,
        is_dec_digit(digit_char(d)),
{
    if d == 0 {
        assert(digit_val('0') == 0 && is_dec_digit('0'));
    } else if d == 1 {
        assert(digit_val('1') == 1 && is_dec_digit('1'));
    } else if d == 2 {
        assert(digit_val('2') == 2 && is_dec_digit('2'));
    } else if d == 3 {
        assert(digit_val('3') == 3 && is_dec_digit('3'));
    } else if d == 4 {
        assert(digit_val('4') == 4 && is_dec_digit('4'));
    } else if d == 5 {
        assert(digit_val('5') == 5 && is_dec_digit('5'));
    } else if d == 6 {
        assert(digit_val('6') == 6 && is_dec_digit('6'));
    } else if d == 7 {
        assert(digit_val('7') == 7 && is_dec_digit('7'));
    } else if d == 8 {
        assert(digit_val('8') == 8 && is_dec_digit('8'));
    } else {
        assert(digit_val('9') == 9 && is_dec_digit('9'));
    }
}

/// Rendering an identifier and parsing it back returns the identifier:
/// the decimal digit string of `n` is nonempty, all digits, and reads back
/// as `n`.
pub proof fn lemma_dec_round_trip(n: nat)
    ensures
        dec_digits(n).len() > 0,
        all_dec_digits(dec_digits(n)),
        dec_val(dec_digits(n)) == n,
    decreases n,
{
    if n < 10 {
        lemma_digit_char_val(n);
        let s = seq![digit_char(n)];
        assert(s.drop_last() =~= Seq::<char>::empty());
        assert(dec_val(Seq::<char>::empty()) == 0);
        assert(s.last() == digit_char(n));
        assert(dec_val(s) == dec_val(s.drop_last()) * 10 + digit_val(s.last()));
    } else {
        lemma_dec_round_trip(n / 10);
        lemma_digit_char_val(n % 10);
        let s = dec_digits(n);
        assert(s.drop_last() =~= dec_digits(n / 10));
        assert(s.last() == digit_char(n % 10));
        assert(dec_val(s) == (n / 10) * 10 + n % 10);
        assert((n / 10) * 10 + n % 10 == n) by (nonlinear_arith);
        assert(forall|i: int|
            0 <= i < s.len() ==> is_dec_digit(#[trigger] s[i])) by {
            assert(forall|i: int|
                0 <= i < s.len() - 1 ==> s[i] == dec_digits(n / 10)[i] && is_dec_digit(
                    #[trigger] s[i],
                ));
            assert(is_dec_digit(s[s.len() - 1]));
        }
    }
}

// ---------------------------------------------------------------------------
// Whitespace
// ---------------------------------------------------------------------------

/// The Unicode `White_Space` characters, the set `str::trim` and
/// `str::split_whitespace` split on.
pub open spec fn is_unicode_ws(c: char) -> bool {
    c == '\u{0009}' || c == '\u{000A}' || c == '\u{000B}' || c == '\u{000C}' || c == '\u{000D}'
        || c == '\u{0020}' || c == '\u{0085}' || c == '\u{00A0}' || c == '\u{1680}' || c
        == '\u{2000}' || c == '\u{2001}' || c == '\u{2002}' || c == '\u{2003}' || c == '\u{2004}'
        || c == '\u{2005}' || c == '\u{2006}' || c == '\u{2007}' || c == '\u{2008}' || c
        == '\u{2009}' || c == '\u{200A}' || c == '\u{2028}' || c == '\u{2029}' || c == '\u{202F}'
        || c == '\u{205F}' || c == '\u{3000}'
}

/// Whether `c` is a Unicode whitespace character.
pub fn ws_char(c: char) -> (r: bool)
    ensures
        r == is_unicode_ws(c),
{
    c == '\u{0009}' || c == '\u{000A}' || c == '\u{000B}' || c == '\u{000C}' || c == '\u{000D}'
        || c == '\u{0020}' || c == '\u{0085}' || c == '\u{00A0}' || c == '\u{1680}' || c
        == '\u{2000}' || c == '\u{2001}' || c == '\u{2002}' || c == '\u{2003}' || c == '\u{2004}'
        || c == '\u{2005}' || c == '\u{2006}' || c == '\u{2007}' || c == '\u{2008}' || c
        == '\u{2009}' || c == '\u{200A}' || c == '\u{2028}' || c == '\u{2029}' || c == '\u{202F}'
        || c == '\u{205F}' || c == '\u{3000}'
}

/// Length of the leading run of whitespace characters.
pub open spec fn ws_prefix_len(s: Seq<char>) -> int
    decreases s.len(),
{
    if s.len() == 0 || !is_unicode_ws(s[0]) {
        0
    } else {
        1 + ws_prefix_len(s.drop_first())
    }
}

/// Length of the trailing run of whitespace characters.
pub open spec fn ws_suffix_len(s: Seq<char>) -> int
    decreases s.len(),
{
    if s.len() == 0 || !is_unicode_ws(s.last()) {
        0
    } else {
        1 + ws_suffix_len(s.drop_last())
    }
}

/// `s` with leading and trailing whitespace removed, as `str::trim` does.
pub open spec fn trim_spec(s: Seq<char>) -> Seq<char> {
    let t = s.subrange(ws_prefix_len(s), s.len() as int);
    t.subrange(0, t.len() - ws_suffix_len(t))
}

proof fn lemma_ws_prefix_len_is(s: Seq<char>, k: int)
    requires
        0 <= k <= s.len(),
        forall|j: int| 0 <= j < k ==> is_unicode_ws(#[trigger] s[j]),
        k == s.len() || !is_unicode_ws(s[k]),
    ensures
        ws_prefix_len(s) == k,
    decreases k,
{
    if k == 0 {
    } else {
        assert(is_unicode_ws(s[0]));
        let t = s.drop_first();
        assert(forall|j: int| 0 <= j < k - 1 ==> is_unicode_ws(#[trigger] t[j]));
        lemma_ws_prefix_len_is(t, k - 1);
    }
}

proof fn lemma_ws_suffix_len_is(s: Seq<char>, k: int)
    requires
        0 <= k <= s.len(),
        forall|j: int| s.len() - k <= j < s.len() ==> is_unicode_ws(#[trigger] s[j]),
        k == s.len() || !is_unicode_ws(s[s.len() - k - 1]),
    ensures
        ws_suffix_len(s) == k,
    decreases k,
{
    if k == 0 {
    } else {
        assert(is_unicode_ws(s.last()));
        let t = s.drop_last();
        assert(forall|j: int| t.len() - (k - 1) <= j < t.len() ==> is_unicode_ws(#[trigger] t[j]));
        lemma_ws_suffix_len_is(t, k - 1);
    }
}

/// The character range `[a, b)` of `s` that `str::trim` keeps.
pub fn trim_bounds(s: &str) -> (r: (usize, usize))
    ensures
        0 <= r.0 <= r.1 <= s@.len(),
        s@.subrange(r.0 as int, r.1 as int) == trim_spec(s@),
{
    let n = s.unicode_len();
    let mut a: usize = 0;
    while a < n && ws_char(s.get_char(a))
        invariant
            0 <= a <= n,
            n == s@.len(),
            forall|j: int| 0 <= j < a ==> is_unicode_ws(#[trigger] s@[j]),
        decreases n - a,
    {
        a += 1;
    }
    let mut b: usize = n;
    while b > a && ws_char(s.get_char(b - 1))
        invariant
            a <= b <= n,
            n == s@.len(),
            forall|j: int| 0 <= j < a ==> is_unicode_ws(#[trigger] s@[j]),
            a == n || !is_unicode_ws(s@[a as int]),
            forall|j: int| b <= j < n ==> is_unicode_ws(#[trigger] s@[j]),
        decreases b,
    {
        b -= 1;
    }
    proof {
        let t = s@.subrange(a as int, s@.len() as int);
        if a < n && b == a {
            // the kept range is empty though a non-ws character exists: impossible,
            // since s[a] is not ws and every char at and after b is ws
            assert(!is_unicode_ws(s@[a as int]));
            assert(is_unicode_ws(s@[a as int]));
        }
        lemma_ws_prefix_len_is(s@, a as int);
        assert(forall|j: int| t.len() - (n - b) <= j < t.len() ==> is_unicode_ws(#[trigger] t[j]));
        if b > a {
            assert(t[b - 1 - a] == s@[b as int - 1]);
            assert(!is_unicode_ws(t[t.len() - (n - b) - 1]));
        }
        lemma_ws_suffix_len_is(t, n as int - b);
        assert(t.subrange(0, t.len() - (n - b)) =~= s@.subrange(a as int, b as int));
    }
    (a, b)
}

// ---------------------------------------------------------------------------
// Substring search and prefixes
// ---------------------------------------------------------------------------

/// Whether `needle` occurs contiguously inside `hay`, as `str::contains`.
pub open spec fn is_substr(hay: Seq<char>, needle: Seq<char>) -> bool {
    exists|i: int|
        0 <= i <= hay.len() - needle.len() && #[trigger] hay.subrange(i, i + needle.len() as int)
            == needle
}

fn match_at(hay: &str, needle: &str, i: usize, hn: usize, nn: usize) -> (r: bool)
    requires
        hn == hay@.len(),
        nn == needle@.len(),
        0 <= i,
        i + nn <= hn,
    ensures
        r == (hay@.subrange(i as int, i as int + needle@.len() as int) == needle@),
{
    let mut j: usize = 0;
    while j < nn
        invariant
            0 <= j <= nn,
            hn == hay@.len(),
            nn == needle@.len(),
            i + nn <= hn,
            forall|k: int| 0 <= k < j ==> hay@[i + k] == needle@[k],
        decreases nn - j,
    {
        if hay.get_char(i + j) != needle.get_char(j) {
            proof {
                let sub = hay@.subrange(i as int, i as int + nn as int);
                assert(sub[j as int] == hay@[i + j]);
                assert(sub[j as int] != needle@[j as int]);
            }
            return false;
        }
        j += 1;
    }
    proof {
        assert(hay@.subrange(i as int, i as int + nn as int) =~= needle@);
    }
    true
}

/// Whether `needle` occurs inside `hay`, as `str::contains` reports it.
pub fn str_contains(hay: &str, needle: &str) -> (r: bool)
    ensures
        r == is_substr(hay@, needle@),
{
    let hn = hay.unicode_len();
    let nn = needle.unicode_len();
    if nn > hn {
        return false;
    }
    if nn == 0 {
        proof {
            assert(hay@.subrange(0, 0 + needle@.len() as int) =~= needle@);
        }
        return true;
    }
    let mut i: usize = 0;
    while i <= hn - nn
        invariant
            0 <= i <= hn - nn + 1,
            0 < nn <= hn,
            hn == hay@.len(),
            nn == needle@.len(),
            forall|k: int|
                0 <= k < i ==> #[trigger] hay@.subrange(k, k + needle@.len() as int) != needle@,
        decreases hn - i,
    {
        if match_at(hay, needle, i, hn, nn) {
            return true;
        }
        i += 1;
    }
    false
}

/// Whether `s` starts with `prefix`, as `str::starts_with`.
pub fn str_starts_with(s: &str, prefix: &str) -> (r: bool)
    ensures
        r == prefix@.is_prefix_of(s@),
{
    let n = s.unicode_len();
    let pn = prefix.unicode_len();
    if pn > n {
        return false;
    }
    let r = match_at(s, prefix, 0, n, pn);
    proof {
        assert(prefix@.is_prefix_of(s@) == (s@.subrange(0, prefix@.len() as int) == prefix@));
    }
    r
}

/// Character-for-character string equality, as `str` comparison reports it.
pub fn str_eq(a: &str, b: &str) -> (r: bool)
    ensures
        r == (a@ == b@),
{
    let n = a.unicode_len();
    let m = b.unicode_len();
    if n != m {
        return false;
    }
    let r = match_at(a, b, 0, n, m);
    proof {
        assert(a@.subrange(0, 0 + m as int) =~= a@);
    }
    r
}

// ---------------------------------------------------------------------------
// Line quoting for artwork descriptions
// ---------------------------------------------------------------------------

/// `s` with every newline replaced by a newline plus a quote marker, the
/// body of the `"> "`-quoted description block.
pub open spec fn quoted_lines(s: Seq<char>) -> Seq<char>
    decreases s.len(),
{
    if s.len() == 0 {
        seq![]
    } else if s[0] == '\n' {
        seq!['\n', '>', ' '] + quoted_lines(s.drop_first())
    } else {
        seq![s[0]] + quoted_lines(s.drop_first())
    }
}

proof fn lemma_quoted_lines_append(a: Seq<char>, b: Seq<char>)
    ensures
        quoted_lines(a + b) == quoted_lines(a) + quoted_lines(b),
    decreases a.len(),
{
    if a.len() == 0 {
        assert(a + b =~= b);
        assert(quoted_lines(a) + quoted_lines(b) =~= quoted_lines(b));
    } else {
        lemma_quoted_lines_append(a.drop_first(), b);
        assert((a + b).drop_first() =~= a.drop_first() + b);
        assert((a + b)[0] == a[0]);
        if a[0] == '\n' {
            assert(seq!['\n', '>', ' '] + (quoted_lines(a.drop_first()) + quoted_lines(b))
                =~= (seq!['\n', '>', ' '] + quoted_lines(a.drop_first())) + quoted_lines(b));
        } else {
            assert(seq![a[0]] + (quoted_lines(a.drop_first()) + quoted_lines(b)) =~= (seq![a[0]]
                + quoted_lines(a.drop_first())) + quoted_lines(b));
        }
    }
}

/// Builds `quoted_lines` of the character range `[a, b)` of `s`.
pub fn quoted_range(s: &str, a: usize, b: usize) -> (r: Vec<char>)
    requires
        a <= b <= s@.len(),
    ensures
        r@ == quoted_lines(s@.subrange(a as int, b as int)),
{
    let mut out: Vec<char> = Vec::new();
    let mut i: usize = a;
    proof {
        assert(s@.subrange(a as int, a as int) =~= Seq::<char>::empty());
        assert(out@ =~= quoted_lines(Seq::<char>::empty()));
    }
    while i < b
        invariant
            a <= i <= b <= s@.len(),
            out@ == quoted_lines(s@.subrange(a as int, i as int)),
        decreases b - i,
    {
        let c = s.get_char(i);
        let ghost prefix = s@.subrange(a as int, i as int);
        if c == '\n' {
            out.push('\n');
            out.push('>');
            out.push(' ');
        } else {
            out.push(c);
        }
        proof {
            lemma_quoted_lines_append(prefix, seq![c]);
            assert(s@.subrange(a as int, i as int + 1) =~= prefix + seq![c]);
            assert(seq![c].drop_first() =~= Seq::<char>::empty());
            assert(quoted_lines(Seq::<char>::empty()) =~= Seq::<char>::empty());
            assert(seq![c].len() == 1 && seq![c][0] == c);
            if c == '\n' {
                assert(quoted_lines(seq![c]) =~= seq!['\n', '>', ' ']);
                assert(out@ =~= quoted_lines(prefix) + quoted_lines(seq![c]));
            } else {
                assert(quoted_lines(seq![c]) =~= seq![c]);
                assert(out@ =~= quoted_lines(prefix) + quoted_lines(seq![c]));
            }
        }
        i += 1;
    }
    out
}

// ---------------------------------------------------------------------------
// Splitting on single characters
// ---------------------------------------------------------------------------

/// Index of the first occurrence of `c` in `s`, or `s.len()` if absent.
pub open spec fn char_idx(s: Seq<char>, c: char) -> int
    decreases s.len(),
{
    if s.len() == 0 {
        0
    } else if s[0] == c {
        0
    } else {
        1 + char_idx(s.drop_first(), c)
    }
}

pub proof fn lemma_char_idx_bounds(s: Seq<char>, c: char)
    ensures
        0 <= char_idx(s, c) <= s.len(),
        char_idx(s, c) < s.len() ==> s[char_idx(s, c)] == c,
        forall|j: int| 0 <= j < char_idx(s, c) ==> s[j] != c,
    decreases s.len(),
{
    if s.len() > 0 && s[0] != c {
        lemma_char_idx_bounds(s.drop_first(), c);
        let t = s.drop_first();
        assert(forall|j: int| 0 <= j < char_idx(t, c) ==> t[j] != c);
        assert(forall|j: int| 1 <= j < char_idx(s, c) ==> s[j] == t[j - 1]);
    }
}

proof fn lemma_char_idx_is(s: Seq<char>, c: char, k: int)
    requires
        0 <= k <= s.len(),
        forall|j: int| 0 <= j < k ==> #[trigger] s[j] != c,
        k == s.len() || s[k] == c,
    ensures
        char_idx(s, c) == k,
    decreases k,
{
    if k > 0 {
        let t = s.drop_first();
        assert(forall|j: int| 0 <= j < k - 1 ==> #[trigger] t[j] != c);
        lemma_char_idx_is(t, c, k - 1);
    }
}

/// Index of the first occurrence of `c` in `s`, or the length if absent.
pub fn find_char(s: &str, c: char) -> (r: usize)
    ensures
        r == char_idx(s@, c),
        r <= s@.len(),
{
    let n = s.unicode_len();
    let mut i: usize = 0;
    while i < n && s.get_char(i) != c
        invariant
            0 <= i <= n,
            n == s@.len(),
            forall|j: int| 0 <= j < i ==> #[trigger] s@[j] != c,
        decreases n - i,
    {
        i += 1;
    }
    proof {
        lemma_char_idx_is(s@, c, i as int);
    }
    i
}

/// The part of `s` after the first `c`, if `c` occurs: the second element of
/// `s.split(c)` when it exists.
pub open spec fn after_first(s: Seq<char>, c: char) -> Option<Seq<char>> {
    if char_idx(s, c) == s.len() {
        None
    } else {
        Some(s.subrange(char_idx(s, c) + 1, s.len() as int))
    }
}

/// The part of `s` before the first `c` (all of `s` if `c` is absent): the
/// first element of `s.split(c)`.
pub open spec fn before_first(s: Seq<char>, c: char) -> Seq<char> {
    s.subrange(0, char_idx(s, c))
}

// ---------------------------------------------------------------------------
// Whitespace splitting
// ---------------------------------------------------------------------------

/// Length of the leading run of non-whitespace characters.
pub open spec fn token_len(s: Seq<char>) -> int
    decreases s.len(),
{
    if s.len() == 0 || is_unicode_ws(s[0]) {
        0
    } else {
        1 + token_len(s.drop_first())
    }
}

pub proof fn lemma_token_len_bounds(s: Seq<char>)
    ensures
        0 <= token_len(s) <= s.len(),
        s.len() > 0 && !is_unicode_ws(s[0]) ==> token_len(s) >= 1,
    decreases s.len(),
{
    if s.len() > 0 && !is_unicode_ws(s[0]) {
        lemma_token_len_bounds(s.drop_first());
    }
}

/// The whitespace-separated tokens of `s`, as `str::split_whitespace`
/// yields them.
pub open spec fn split_ws_spec(s: Seq<char>) -> Seq<Seq<char>>
    decreases s.len(),
    via split_ws_spec_decreases
{
    if s.len() == 0 {
        seq![]
    } else if is_unicode_ws(s[0]) {
        split_ws_spec(s.drop_first())
    } else {
        let k = token_len(s);
        seq![s.subrange(0, k)] + split_ws_spec(s.subrange(k, s.len() as int))
    }
}

#[via_fn]
proof fn split_ws_spec_decreases(s: Seq<char>) {
    lemma_token_len_bounds(s);
}

proof fn lemma_token_len_is(s: Seq<char>, k: int)
    requires
        0 <= k <= s.len(),
        forall|j: int| 0 <= j < k ==> !is_unicode_ws(#[trigger] s[j]),
        k == s.len() || is_unicode_ws(s[k]),
    ensures
        token_len(s) == k,
    decreases k,
{
    if k > 0 {
        let t = s.drop_first();
        assert(forall|j: int| 0 <= j < k - 1 ==> !is_unicode_ws(#[trigger] t[j]));
        lemma_token_len_is(t, k - 1);
    }
}

/// Splits `s` at whitespace into its tokens, as `str::split_whitespace`.
pub fn split_ws(s: &str) -> (r: Vec<String>)
    ensures
        r.deep_view() == split_ws_spec(s@),
{
    let n = s.unicode_len();
    let mut out: Vec<String> = Vec::new();
    let mut i: usize = 0;
    proof {
        assert(out.deep_view() =~= Seq::<Seq<char>>::empty());
        assert(s@.subrange(0, n as int) =~= s@);
        assert(Seq::<Seq<char>>::empty() + split_ws_spec(s@) =~= split_ws_spec(s@));
    }
    while i < n
        invariant
            0 <= i <= n,
            n == s@.len(),
            split_ws_spec(s@) == out.deep_view() + split_ws_spec(
                s@.subrange(i as int, n as int),
            ),
        decreases n - i,
    {
        let ghost prev = out.deep_view();
        let c = s.get_char(i);
        if ws_char(c) {
            proof {
                let t = s@.subrange(i as int, n as int);
                assert(t[0] == s@[i as int]);
                assert(t.drop_first() =~= s@.subrange(i as int + 1, n as int));
            }
            i += 1;
        } else {
            let start = i;
            i += 1;
            while i < n && !ws_char(s.get_char(i))
                invariant
                    start < i <= n,
                    n == s@.len(),
                    forall|j: int| start <= j < i ==> !is_unicode_ws(#[trigger] s@[j]),
                decreases n - i,
            {
                i += 1;
            }
            let tok = s.substring_char(start, i);
            out.push(String::from_str(tok));
            proof {
                let t = s@.subrange(start as int, n as int);
                assert(forall|j: int|
                    0 <= j < i - start ==> !is_unicode_ws(#[trigger] t[j]));
                if (i as int - start as int) < t.len() {
                    assert(t[i as int - start as int] == s@[i as int]);
                }
                lemma_token_len_is(t, i as int - start as int);
                assert(t.subrange(0, i as int - start as int) =~= s@.subrange(
                    start as int,
                    i as int,
                ));
                assert(t.subrange(i as int - start as int, t.len() as int) =~= s@.subrange(
                    i as int,
                    n as int,
                ));
                assert(split_ws_spec(t) == seq![tok@] + split_ws_spec(
                    s@.subrange(i as int, n as int),
                ));
                assert(out.deep_view() =~= prev + seq![tok@]);
                assert((prev + seq![tok@]) + split_ws_spec(s@.subrange(i as int, n as int))
                    =~= prev + (seq![tok@] + split_ws_spec(s@.subrange(i as int, n as int))));
            }
        }
    }
    proof {
        assert(s@.subrange(n as int, n as int) =~= Seq::<char>::empty());
        assert(out.deep_view() + split_ws_spec(Seq::<char>::empty()) =~= out.deep_view());
    }
    out
}

/// The first of `toks` that starts with `p`, if any.
pub open spec fn first_with_prefix(toks: Seq<Seq<char>>, p: Seq<char>) -> Option<Seq<char>>
    decreases toks.len(),
{
    if toks.len() == 0 {
        None
    } else if p.is_prefix_of(toks[0]) {
        Some(toks[0])
    } else {
        first_with_prefix(toks.drop_first(), p)
    }
}

/// Finds the first token starting with `prefix`, as
/// `split_whitespace().find(|t| t.starts_with(prefix))`.
pub fn find_token_with_prefix(toks: &Vec<String>, prefix: &str) -> (r: Option<String>)
    ensures
        r.deep_view() == first_with_prefix(toks.deep_view(), prefix@),
{
    let n = toks.len();
    let mut i: usize = 0;
    proof {
        assert(toks.deep_view().subrange(0, n as int) =~= toks.deep_view());
    }
    while i < n
        invariant
            0 <= i <= n,
            n == toks.len(),
            first_with_prefix(toks.deep_view(), prefix@) == first_with_prefix(
                toks.deep_view().subrange(i as int, n as int),
                prefix@,
            ),
        decreases n - i,
    {
        proof {
            let t = toks.deep_view().subrange(i as int, n as int);
            assert(t[0] == toks.deep_view()[i as int]);
            assert(t.drop_first() =~= toks.deep_view().subrange(i as int + 1, n as int));
        }
        if str_starts_with(toks[i].as_str(), prefix) {
            return Some(toks[i].clone());
        }
        i += 1;
    }
    proof {
        assert(toks.deep_view().subrange(n as int, n as int) =~= Seq::<Seq<char>>::empty());
    }
    None
}

// ---------------------------------------------------------------------------
// Conversion of a character vector into a string
// ---------------------------------------------------------------------------

/// Relies on `String`'s `FromIterator<char>`: collecting characters yields
/// the string of exactly those characters in order.
#[verifier::external_body]
pub(crate) fn chars_to_string(v: &Vec<char>) -> (r: String)
    ensures
        r@ == v@,
{
    v.iter().collect()
}

} // verus!
