//! Where a request carries its session token, and which requests need none.
//!
//! Header values are taken as the bytes that came over the wire. A value
//! that holds anything but visible ASCII and tabs is not read at all.

use vstd::prelude::*;
use crate::text::text_is;

verus! {

/// Whether a request to `path` is let through without a session.
pub open spec fn spec_is_open_path(path: Seq<char>) -> bool {
    path == "/"@ || path == "/api/auth/login"@ || path == "/api/auth/register"@ || path
        == "/api/auth/refresh"@
}

/// Whether a request is let through without a session: a preflight request,
/// or a request to the root, to login, to registration or to token refresh.
pub fn skips_session_check(preflight: bool, path: &String) -> (skips: bool)
    ensures
        skips == (preflight || spec_is_open_path(path@)),
{
    preflight || text_is(path, "/") || text_is(path, "/api/auth/login") || text_is(
        path,
        "/api/auth/register",
    ) || text_is(path, "/api/auth/refresh")
}

/// Whether a user of the role `role` is an administrator: the role is
/// `Admin`, written so.
pub fn is_admin_role(role: &String) -> (admin: bool)
    ensures
        admin == (role@ == "Admin"@),
{
    text_is(role, "Admin")
}

/// Whether `b` is a visible ASCII character, a space or a tab.
pub open spec fn spec_is_visible(b: u8) -> bool {
    (32 <= b && b < 127) || b == 9
}

/// Whether a header value can be read as text.
pub open spec fn spec_is_readable(value: Seq<u8>) -> bool {
    forall|i: int| 0 <= i < value.len() ==> spec_is_visible(#[trigger] value[i])
}

/// Whether `b` is a space or a tab.
pub open spec fn spec_is_blank(b: u8) -> bool {
    b == 32 || b == 9
}

/// The bytes of `Bearer `, the scheme that introduces a token in the
/// `Authorization` header.
pub open spec fn bearer_prefix() -> Seq<u8> {
    seq![66u8, 101u8, 97u8, 114u8, 101u8, 114u8, 32u8]
}

/// The bytes of `session_token=`, the name of the cookie that holds a token.
pub open spec fn cookie_prefix() -> Seq<u8> {
    seq![
        115u8,
        101u8,
        115u8,
        115u8,
        105u8,
        111u8,
        110u8,
        95u8,
        116u8,
        111u8,
        107u8,
        101u8,
        110u8,
        61u8,
    ]
}

/// Whether `s` begins with `prefix`.
pub open spec fn spec_starts_with(s: Seq<u8>, prefix: Seq<u8>) -> bool {
    s.len() >= prefix.len() && s.subrange(0, prefix.len() as int) == prefix
}

/// `s` without the blanks at its start.
pub open spec fn spec_trim_start(s: Seq<u8>) -> Seq<u8>
    decreases s.len(),
{
    if s.len() > 0 && spec_is_blank(s[0]) {
        spec_trim_start(s.drop_first())
    } else {
        s
    }
}

/// `s` without the blanks at its end.
pub open spec fn spec_trim_end(s: Seq<u8>) -> Seq<u8>
    decreases s.len(),
{
    if s.len() > 0 && spec_is_blank(s.last()) {
        spec_trim_end(s.drop_last())
    } else {
        s
    }
}

/// `s` without the blanks at its start and at its end.
pub open spec fn spec_trim(s: Seq<u8>) -> Seq<u8> {
    spec_trim_end(spec_trim_start(s))
}

/// The number of bytes of `s` before its first semicolon; all of them where
/// it has none.
pub open spec fn spec_segment_len(s: Seq<u8>) -> int
    decreases s.len(),
{
    if s.len() == 0 || s[0] == 59 {
        0
    } else {
        1 + spec_segment_len(s.drop_first())
    }
}

/// The token of the first cookie named `session_token` in a list of cookies
/// that semicolons separate. Blanks around a cookie are passed over; what
/// follows the name and the equals sign, up to the end of the cookie, is the
/// token.
pub open spec fn spec_scan_cookies(s: Seq<u8>) -> Option<Seq<u8>>
    decreases s.len(),
{
    let n = spec_segment_len(s);
    let cookie = spec_trim(s.subrange(0, n));
    if spec_starts_with(cookie, cookie_prefix()) {
        Some(cookie.skip(cookie_prefix().len() as int))
    } else if 0 <= n < s.len() {
        spec_scan_cookies(s.skip(n + 1))
    } else {
        None
    }
}

/// The token that an `Authorization` header holds: what follows `Bearer `,
/// where the value can be read and begins so.
pub open spec fn spec_bearer_token(value: Seq<u8>) -> Option<Seq<u8>> {
    if spec_is_readable(value) && spec_starts_with(value, bearer_prefix()) {
        Some(value.skip(bearer_prefix().len() as int))
    } else {
        None
    }
}

/// The token that a `Cookie` header holds, where the value can be read and
/// has a cookie named `session_token`.
pub open spec fn spec_cookie_token(value: Seq<u8>) -> Option<Seq<u8>> {
    if spec_is_readable(value) {
        spec_scan_cookies(value)
    } else {
        None
    }
}

/// The session token of a request. Where the request has an `Authorization`
/// header, only that header counts; else the `Cookie` header does.
pub open spec fn spec_session_token(
    authorization: Option<Seq<u8>>,
    cookie: Option<Seq<u8>>,
) -> Option<Seq<u8>> {
    match authorization {
        Some(value) => spec_bearer_token(value),
        None => match cookie {
            Some(value) => spec_cookie_token(value),
            None => None,
        },
    }
}

/// The length of a segment is within the text, no byte of the segment is a
/// semicolon, and the byte after it, if there is one, is a semicolon.
pub proof fn segment_len_facts(s: Seq<u8>)
    ensures
        0 <= spec_segment_len(s) <= s.len(),
        forall|i: int| 0 <= i < spec_segment_len(s) ==> s[i] != 59,
        spec_segment_len(s) < s.len() ==> s[spec_segment_len(s)] == 59,
    decreases s.len(),
{
    if s.len() == 0 || s[0] == 59 {
    } else {
        let rest = s.drop_first();
        segment_len_facts(rest);
        assert forall|i: int| 0 <= i < spec_segment_len(s) implies s[i] != 59 by {
            if i > 0 {
                assert(rest[i - 1] == s[i]);
            }
        }
        if spec_segment_len(s) < s.len() {
            assert(rest[spec_segment_len(rest)] == s[spec_segment_len(s)]);
        }
    }
}

/// A stretch without semicolon that ends at a semicolon, or at the end of
/// the text, is the first segment.
pub proof fn segment_len_is(s: Seq<u8>, n: int)
    requires
        0 <= n <= s.len(),
        forall|i: int| 0 <= i < n ==> s[i] != 59,
        n < s.len() ==> s[n] == 59,
    ensures
        spec_segment_len(s) == n,
    decreases s.len(),
{
    if n > 0 {
        let rest = s.drop_first();
        assert forall|i: int| 0 <= i < n - 1 implies rest[i] != 59 by {
            assert(rest[i] == s[i + 1]);
        }
        if n - 1 < rest.len() {
            assert(rest[n - 1] == s[n]);
        }
        segment_len_is(rest, n - 1);
    }
}

/// A stretch of blanks at the start, followed by a byte that is none or by
/// the end, is what trimming the start takes off.
pub proof fn trim_start_is(s: Seq<u8>, k: int)
    requires
        0 <= k <= s.len(),
        forall|i: int| 0 <= i < k ==> spec_is_blank(#[trigger] s[i]),
        k < s.len() ==> !spec_is_blank(s[k]),
    ensures
        spec_trim_start(s) == s.skip(k),
    decreases s.len(),
{
    if k > 0 {
        let rest = s.drop_first();
        assert(spec_is_blank(s[0]));
        assert forall|i: int| 0 <= i < k - 1 implies spec_is_blank(#[trigger] rest[i]) by {
            assert(spec_is_blank(s[i + 1]));
        }
        if k - 1 < rest.len() {
            assert(rest[k - 1] == s[k]);
        }
        trim_start_is(rest, k - 1);
        assert(rest.skip(k - 1) =~= s.skip(k));
    } else {
        assert(s.skip(0) =~= s);
    }
}

/// A stretch of blanks at the end, preceded by a byte that is none or by the
/// start, is what trimming the end takes off.
pub proof fn trim_end_is(s: Seq<u8>, k: int)
    requires
        0 <= k <= s.len(),
        forall|i: int| k <= i < s.len() ==> spec_is_blank(#[trigger] s[i]),
        k > 0 ==> !spec_is_blank(s[k - 1]),
    ensures
        spec_trim_end(s) == s.take(k),
    decreases s.len(),
{
    if k < s.len() {
        let rest = s.drop_last();
        assert(spec_is_blank(s[s.len() - 1]));
        assert forall|i: int| k <= i < rest.len() implies spec_is_blank(#[trigger] rest[i]) by {
            assert(spec_is_blank(s[i]));
        }
        if k > 0 {
            assert(rest[k - 1] == s[k - 1]);
        }
        trim_end_is(rest, k);
        assert(rest.take(k) =~= s.take(k));
    } else {
        assert(s.take(k) =~= s);
    }
}

/// Within a list of cookies, the stretch from `start` to `end` that holds
/// no semicolon and ends at one, or at the end of the list, is the first
/// segment from `start` on; and what is left of it between the blanks at its
/// two ends is the segment trimmed.
proof fn first_cookie_is(value: Seq<u8>, start: int, end: int, lo: int, hi: int)
    requires
        0 <= start <= lo <= hi <= end <= value.len(),
        forall|i: int| start <= i < end ==> value[i] != 59,
        end < value.len() ==> value[end] == 59,
        forall|i: int| start <= i < lo ==> spec_is_blank(#[trigger] value[i]),
        lo < end ==> !spec_is_blank(value[lo]),
        forall|i: int| hi <= i < end ==> spec_is_blank(#[trigger] value[i]),
        hi > lo ==> !spec_is_blank(value[hi - 1]),
    ensures
        spec_segment_len(value.skip(start)) == end - start,
        spec_trim(value.skip(start).subrange(0, end - start)) == value.subrange(lo, hi),
{
    let rest = value.skip(start);
    let len = end - start;
    assert forall|i: int| 0 <= i < len implies rest[i] != 59 by {
        assert(rest[i] == value[start + i]);
    }
    segment_len_is(rest, len);
    let segment = rest.subrange(0, len);
    assert(segment =~= value.subrange(start, end));
    assert forall|i: int| 0 <= i < lo - start implies spec_is_blank(#[trigger] segment[i]) by {
        assert(spec_is_blank(value[start + i]));
    }
    if lo - start < segment.len() {
        assert(segment[lo - start] == value[lo]);
    }
    trim_start_is(segment, lo - start);
    let front = segment.skip(lo - start);
    assert(front =~= value.subrange(lo, end));
    assert forall|i: int| hi - lo <= i < front.len() implies spec_is_blank(#[trigger] front[i]) by {
        assert(spec_is_blank(value[lo + i]));
    }
    if hi > lo {
        assert(front[hi - lo - 1] == value[hi - 1]);
    }
    trim_end_is(front, hi - lo);
    assert(front.take(hi - lo) =~= value.subrange(lo, hi));
}

/// Whether every byte of `value` is visible ASCII, a space or a tab.
pub fn is_readable(value: &Vec<u8>) -> (readable: bool)
    ensures
        readable == spec_is_readable(value@),
{
    let mut i: usize = 0;
    while i < value.len()
        invariant
            i <= value.len(),
            forall|k: int| 0 <= k < i ==> spec_is_visible(#[trigger] value[k]),
        decreases value.len() - i,
    {
        let b = value[i];
        if !((32 <= b && b < 127) || b == 9) {
            assert(!spec_is_visible(value@[i as int]));
            return false;
        }
        i += 1;
    }
    true
}

/// Whether `value` begins with `Bearer `.
fn has_bearer_prefix(value: &Vec<u8>) -> (has: bool)
    ensures
        has == spec_starts_with(value@, bearer_prefix()),
{
    if value.len() < 7 {
        return false;
    }
    let has = value[0] == 66 && value[1] == 101 && value[2] == 97 && value[3] == 114 && value[4]
        == 101 && value[5] == 114 && value[6] == 32;
    proof {
        let head = value@.subrange(0, 7);
        if has {
            assert(head =~= bearer_prefix());
        } else {
            assert(head[0] == value[0] && head[1] == value[1] && head[2] == value[2] && head[3]
                == value[3] && head[4] == value[4] && head[5] == value[5] && head[6] == value[6]);
        }
    }
    has
}

/// Whether the bytes of `value` from `lo` up to `hi` begin with
/// `session_token=`.
fn has_cookie_prefix(value: &Vec<u8>, lo: usize, hi: usize) -> (has: bool)
    requires
        lo <= hi <= value.len(),
    ensures
        has == spec_starts_with(value@.subrange(lo as int, hi as int), cookie_prefix()),
{
    if hi - lo < 14 {
        return false;
    }
    let has = value[lo] == 115 && value[lo + 1] == 101 && value[lo + 2] == 115 && value[lo + 3]
        == 115 && value[lo + 4] == 105 && value[lo + 5] == 111 && value[lo + 6] == 110 && value[lo
        + 7] == 95 && value[lo + 8] == 116 && value[lo + 9] == 111 && value[lo + 10] == 107
        && value[lo + 11] == 101 && value[lo + 12] == 110 && value[lo + 13] == 61;
    proof {
        let head = value@.subrange(lo as int, hi as int).subrange(0, 14);
        assert forall|k: int| 0 <= k < 14 implies head[k] == value[lo + k] by {}
        if has {
            assert(head =~= cookie_prefix());
        } else {
            assert(head[0] == value[lo as int] && head[1] == value[lo + 1] && head[2] == value[lo
                + 2] && head[3] == value[lo + 3] && head[4] == value[lo + 4] && head[5] == value[lo
                + 5] && head[6] == value[lo + 6] && head[7] == value[lo + 7] && head[8] == value[lo
                + 8] && head[9] == value[lo + 9] && head[10] == value[lo + 10] && head[11]
                == value[lo + 11] && head[12] == value[lo + 12] && head[13] == value[lo + 13]);
        }
    }
    has
}

/// A copy of the bytes of `value` from `lo` up to `hi`.
fn copy_of(value: &Vec<u8>, lo: usize, hi: usize) -> (copy: Vec<u8>)
    requires
        lo <= hi <= value.len(),
    ensures
        copy@ == value@.subrange(lo as int, hi as int),
{
    let mut copy: Vec<u8> = Vec::new();
    let mut i: usize = lo;
    while i < hi
        invariant
            lo <= i <= hi <= value.len(),
            copy@ == value@.subrange(lo as int, i as int),
        decreases hi - i,
    {
        copy.push(value[i]);
        assert(copy@ =~= value@.subrange(lo as int, i as int + 1));
        i += 1;
    }
    assert(value@.subrange(lo as int, lo as int) =~= Seq::<u8>::empty());
    copy
}

/// The token that an `Authorization` header holds, if it holds one.
pub fn bearer_token(value: &Vec<u8>) -> (token: Option<Vec<u8>>)
    ensures
        match token {
            Some(t) => spec_bearer_token(value@) == Some(t@),
            None => spec_bearer_token(value@).is_none(),
        },
{
    if is_readable(value) && has_bearer_prefix(value) {
        let token = copy_of(value, 7, value.len());
        assert(token@ =~= value@.skip(7));
        Some(token)
    } else {
        None
    }
}

/// The token of the first cookie named `session_token` in a readable list
/// of cookies.
fn scan_cookies(value: &Vec<u8>) -> (token: Option<Vec<u8>>)
    ensures
        match token {
            Some(t) => spec_scan_cookies(value@) == Some(t@),
            None => spec_scan_cookies(value@).is_none(),
        },
{
    let n = value.len();
    let mut start: usize = 0;
    assert(value@.skip(0) =~= value@);
    loop
        invariant
            start <= n,
            n == value.len(),
            spec_scan_cookies(value@) == spec_scan_cookies(value@.skip(start as int)),
        decreases n - start,
    {
        let ghost rest = value@.skip(start as int);
        let mut end: usize = start;
        while end < n && value[end] != 59
            invariant
                start <= end <= n,
                n == value.len(),
                forall|i: int| start <= i < end ==> value[i] != 59,
            decreases n - end,
        {
            end += 1;
        }
        let mut lo: usize = start;
        while lo < end && (value[lo] == 32 || value[lo] == 9)
            invariant
                start <= lo <= end <= n,
                n == value.len(),
                forall|i: int| start <= i < lo ==> spec_is_blank(#[trigger] value[i]),
            decreases end - lo,
        {
            lo += 1;
        }
        let mut hi: usize = end;
        while hi > lo && (value[hi - 1] == 32 || value[hi - 1] == 9)
            invariant
                lo <= hi <= end <= n,
                n == value.len(),
                forall|i: int| hi <= i < end ==> spec_is_blank(#[trigger] value[i]),
            decreases hi,
        {
            hi -= 1;
        }
        proof {
            first_cookie_is(value@, start as int, end as int, lo as int, hi as int);
        }
        if has_cookie_prefix(value, lo, hi) {
            let token = copy_of(value, lo + 14, hi);
            assert(token@ =~= value@.subrange(lo as int, hi as int).skip(14));
            return Some(token);
        }
        if end >= n {
            return None;
        }
        proof {
            assert(rest.skip(end - start + 1) =~= value@.skip(end as int + 1));
        }
        start = end + 1;
    }
}

/// The token that a `Cookie` header holds, if it holds one.
pub fn cookie_token(value: &Vec<u8>) -> (token: Option<Vec<u8>>)
    ensures
        match token {
            Some(t) => spec_cookie_token(value@) == Some(t@),
            None => spec_cookie_token(value@).is_none(),
        },
{
    if is_readable(value) {
        scan_cookies(value)
    } else {
        None
    }
}

/// The view of an optional header value.
pub open spec fn header_view(value: Option<&Vec<u8>>) -> Option<Seq<u8>> {
    match value {
        Some(v) => Some(v@),
        None => None,
    }
}

/// The session token of a request with the `Authorization` and `Cookie`
/// header values given. Where the request has an `Authorization` header,
/// only that header counts; else the `Cookie` header does.
pub fn session_token(authorization: Option<&Vec<u8>>, cookie: Option<&Vec<u8>>) -> (token: Option<
    Vec<u8>,
>)
    ensures
        match token {
            Some(t) => spec_session_token(header_view(authorization), header_view(cookie))
                == Some(t@),
            None => spec_session_token(header_view(authorization), header_view(cookie)).is_none(),
        },
{
    match authorization {
        Some(value) => bearer_token(value),
        None => match cookie {
            Some(value) => cookie_token(value),
            None => None,
        },
    }
}

} // verus!
