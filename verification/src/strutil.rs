//! Verified scanning over strings: substring containment, prefixes, and
//! hostname extraction from a URL.

use vstd::prelude::*;
use vstd::string::*;

verus! {

/// Whether `needle` occurs as a contiguous run somewhere inside `hay`.
pub open spec fn is_substring_of(needle: Seq<char>, hay: Seq<char>) -> bool {
    exists|i: int|
        0 <= i && i + needle.len() <= hay.len() && #[trigger] hay.subrange(i, i + needle.len())
            == needle
}

/// Whether `p` is a prefix of `s`.
pub open spec fn has_prefix(s: Seq<char>, p: Seq<char>) -> bool {
    p.len() <= s.len() && s.subrange(0, p.len() as int) == p
}

/// Characters that may stand in a hostname token: letters, digits, `-` and `.`.
pub open spec fn is_host_char(c: char) -> bool {
    ('a' as u32 <= c as u32 && c as u32 <= 'z' as u32)
        || ('A' as u32 <= c as u32 && c as u32 <= 'Z' as u32)
        || ('0' as u32 <= c as u32 && c as u32 <= '9' as u32)
        || c == '-'
        || c == '.'
}

/// Length of the leading run of hostname characters of `u`.
pub open spec fn host_prefix_len(u: Seq<char>) -> nat
    decreases u.len(),
{
    if u.len() == 0 || !is_host_char(u[0]) {
        0
    } else {
        1 + host_prefix_len(u.skip(1))
    }
}

/// The URL with a leading `https://` or `http://` removed.
pub open spec fn strip_scheme(u: Seq<char>) -> Seq<char> {
    if has_prefix(u, "https://"@) {
        u.skip("https://"@.len() as int)
    } else if has_prefix(u, "http://"@) {
        u.skip("http://"@.len() as int)
    } else {
        u
    }
}

/// The string with a leading `www.` removed.
pub open spec fn strip_www(u: Seq<char>) -> Seq<char> {
    if has_prefix(u, "www."@) {
        u.skip("www."@.len() as int)
    } else {
        u
    }
}

/// The host token of a URL: after the optional scheme and the optional
/// `www.`, the run of hostname characters up to the next delimiter.
pub open spec fn host_of(u: Seq<char>) -> Seq<char> {
    let v = strip_www(strip_scheme(u));
    v.take(host_prefix_len(v) as int)
}

/// The leading run of hostname characters ends exactly at the first
/// position that does not hold a hostname character.
pub proof fn lemma_host_prefix_len_at(u: Seq<char>, i: int)
    requires
        0 <= i <= u.len(),
        forall|k: int| 0 <= k < i ==> is_host_char(u[k]),
        i == u.len() || !is_host_char(u[i]),
    ensures
        host_prefix_len(u) == i,
    decreases i,
{
    if i == 0 {
    } else {
        assert(is_host_char(u[0]));
        assert(forall|k: int| 0 <= k < i - 1 ==> is_host_char(u.skip(1)[k]));
        assert(i - 1 == u.skip(1).len() || !is_host_char(u.skip(1)[i - 1]));
        lemma_host_prefix_len_at(u.skip(1), i - 1);
    }
}

/// Character-for-character equality of two string slices.
pub fn str_eq(a: &str, b: &str) -> (r: bool)
    ensures
        r == (a@ == b@),
{
    let n = a.unicode_len();
    let m = b.unicode_len();
    if n != m {
        return false;
    }
    let mut i: usize = 0;
    while i < n
        invariant
            i <= n,
            n == a@.len(),
            n == b@.len(),
            forall|k: int| 0 <= k < i ==> a@[k] == b@[k],
        decreases n - i,
    {
        if a.get_char(i) != b.get_char(i) {
            return false;
        }
        i += 1;
    }
    proof {
        assert(a@ =~= b@);
    }
    true
}

/// Whether `hay` holds `needle` starting at position `at`.
fn match_at(hay: &str, needle: &str, at: usize) -> (r: bool)
    requires
        at + needle@.len() <= hay@.len(),
    ensures
        r == (hay@.subrange(at as int, at + needle@.len()) == needle@),
{
    let n = hay.unicode_len();
    let m = needle.unicode_len();
    let mut j: usize = 0;
    while j < m
        invariant
            j <= m,
            m == needle@.len(),
            n == hay@.len(),
            at + m <= n,
            forall|k: int| 0 <= k < j ==> hay@[at + k] == needle@[k],
        decreases m - j,
    {
        if hay.get_char(at + j) != needle.get_char(j) {
            proof {
                assert(hay@.subrange(at as int, at + m) == needle@ ==> hay@.subrange(
                    at as int,
                    at + m,
                )[j as int] == needle@[j as int]);
            }
            return false;
        }
        j += 1;
    }
    proof {
        assert(hay@.subrange(at as int, at + m) =~= needle@);
    }
    true
}

/// Whether the string `needle` occurs anywhere inside `hay`.
pub fn contains_sub(hay: &str, needle: &str) -> (r: bool)
    ensures
        r == is_substring_of(needle@, hay@),
{
    let n = hay.unicode_len();
    let m = needle.unicode_len();
    if m > n {
        return false;
    }
    if m == 0 {
        proof {
            assert(hay@.subrange(0, 0 + needle@.len() as int) =~= needle@);
        }
        return true;
    }
    let mut i: usize = 0;
    while i <= n - m
        invariant
            1 <= m <= n,
            i <= n - m + 1,
            n == hay@.len(),
            m == needle@.len(),
            forall|k: int| 0 <= k < i ==> #[trigger] hay@.subrange(k, k + m) != needle@,
        decreases n - i,
    {
        if match_at(hay, needle, i) {
            return true;
        }
        i += 1;
    }
    false
}

/// Whether `s` starts with `p`.
pub fn starts_with_lit(s: &str, p: &str) -> (r: bool)
    ensures
        r == has_prefix(s@, p@),
{
    let n = s.unicode_len();
    let m = p.unicode_len();
    if m > n {
        return false;
    }
    match_at(s, p, 0)
}

/// Length of the leading run of hostname characters of `s`.
pub fn host_token_len(s: &str) -> (r: usize)
    ensures
        r == host_prefix_len(s@),
        r <= s@.len(),
{
    let n = s.unicode_len();
    let mut i: usize = 0;
    while i < n
        invariant
            i <= n,
            n == s@.len(),
            forall|k: int| 0 <= k < i ==> is_host_char(s@[k]),
        decreases n - i,
    {
        let c = s.get_char(i);
        let x = c as u32;
        if !((97 <= x && x <= 122) || (65 <= x && x <= 90) || (48 <= x && x <= 57) || c == '-'
            || c == '.') {
            proof {
                assert(!is_host_char(s@[i as int]));
                lemma_host_prefix_len_at(s@, i as int);
            }
            return i;
        }
        i += 1;
    }
    proof {
        lemma_host_prefix_len_at(s@, n as int);
    }
    n
}

/// The host token of a URL, per `host_of`: the scheme and a leading
/// `www.` are dropped, and the token ends at the first character that
/// cannot stand in a hostname.
pub fn extract_host(url: &str) -> (h: String)
    ensures
        h@ == host_of(url@),
{
    let n = url.unicode_len();
    let after_scheme: &str = if starts_with_lit(url, "https://") {
        proof {
            reveal_strlit("https://");
        }
        url.substring_char(8, n)
    } else if starts_with_lit(url, "http://") {
        proof {
            reveal_strlit("http://");
        }
        url.substring_char(7, n)
    } else {
        url
    };
    proof {
        assert(after_scheme@ =~= strip_scheme(url@));
    }
    let m = after_scheme.unicode_len();
    let after_www: &str = if starts_with_lit(after_scheme, "www.") {
        proof {
            reveal_strlit("www.");
        }
        after_scheme.substring_char(4, m)
    } else {
        after_scheme
    };
    proof {
        assert(after_www@ =~= strip_www(strip_scheme(url@)));
    }
    let k = host_token_len(after_www);
    let host = after_www.substring_char(0, k);
    proof {
        assert(host@ =~= host_of(url@));
    }
    host.to_owned()
}

} // verus!
