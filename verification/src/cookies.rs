//! The cookie header of a request, and the session token in it.
//!
//! The header is a list of cookies separated by semicolons. The session
//! token is the value of the first cookie named `auth_token`, white space
//! around the cookie not counting.

use crate::text::characters;
use vstd::prelude::*;
use vstd::string::StrSliceExecFns;

verus! {

/// White space as it can occur in a header: space, tab, line feed, vertical
/// tab, form feed and carriage return.
pub open spec fn is_white_space(c: char) -> bool {
    c == ' ' || c == '\t' || c == '\n' || c == '\u{b}' || c == '\u{c}' || c == '\r'
}

/// A text without the white space at its start.
pub open spec fn trim_start(text: Seq<char>) -> Seq<char>
    decreases text.len(),
{
    if text.len() > 0 && is_white_space(text[0]) {
        trim_start(text.drop_first())
    } else {
        text
    }
}

/// A text without the white space at its end.
pub open spec fn trim_end(text: Seq<char>) -> Seq<char>
    decreases text.len(),
{
    if text.len() > 0 && is_white_space(text.last()) {
        trim_end(text.drop_last())
    } else {
        text
    }
}

/// A text without the white space at its ends.
pub open spec fn trim(text: Seq<char>) -> Seq<char> {
    trim_end(trim_start(text))
}

/// A text without `prefix` at its start, as often as it stands there.
pub open spec fn strip_all(text: Seq<char>, prefix: Seq<char>) -> Seq<char>
    decreases text.len(),
{
    if prefix.len() > 0 && prefix.is_prefix_of(text) {
        strip_all(text.skip(prefix.len() as int), prefix)
    } else {
        text
    }
}

/// The length of what stands before the first semicolon of a text, or of
/// the whole text if it has none.
pub open spec fn first_cookie_len(cookies: Seq<char>) -> nat
    decreases cookies.len(),
{
    if cookies.len() == 0 || cookies[0] == ';' {
        0
    } else {
        1 + first_cookie_len(cookies.drop_first())
    }
}

/// The name of the cookie that carries the session token, with the equals
/// sign that ends it.
pub open spec fn token_cookie_name() -> Seq<char> {
    "auth_token="@
}

/// The session token in a cookie header: the value of the first cookie
/// whose name is `auth_token`. `None` if there is no such cookie.
pub open spec fn auth_token_of(cookies: Seq<char>) -> Option<Seq<char>>
    decreases cookies.len(),
{
    let n = first_cookie_len(cookies);
    let cookie = trim(cookies.take(n as int));
    if token_cookie_name().is_prefix_of(cookie) {
        Some(strip_all(cookie, token_cookie_name()))
    } else if n < cookies.len() {
        auth_token_of(cookies.skip(n as int + 1))
    } else {
        None
    }
}

/// Whether `c` is white space.
pub fn is_white(c: char) -> (white: bool)
    ensures
        white == is_white_space(c),
{
    c == ' ' || c == '\t' || c == '\n' || c == '\u{b}' || c == '\u{c}' || c == '\r'
}

/// Whether `prefix` stands at position `at` of the characters up to `end`.
fn has_prefix_at(chars: &Vec<char>, at: usize, end: usize, prefix: &Vec<char>) -> (found: bool)
    requires
        at <= end <= chars@.len(),
    ensures
        found == prefix@.is_prefix_of(chars@.subrange(at as int, end as int)),
{
    if prefix.len() > end - at {
        return false;
    }
    let ghost part = chars@.subrange(at as int, end as int);
    let mut j: usize = 0;
    while j < prefix.len()
        invariant
            j <= prefix.len(),
            at <= end <= chars@.len(),
            prefix@.len() <= end - at,
            part == chars@.subrange(at as int, end as int),
            forall|k: int| 0 <= k < j ==> prefix@[k] == part[k],
        decreases prefix.len() - j,
    {
        if chars[at + j] != prefix[j] {
            assert(part.subrange(0, prefix@.len() as int)[j as int] != prefix@[j as int]);
            return false;
        }
        j = j + 1;
    }
    assert(prefix@ =~= part.subrange(0, prefix@.len() as int));
    true
}

/// Reads the session token out of a cookie header.
pub fn auth_token_from_cookies(cookies: &str) -> (token: Option<String>)
    ensures
        match token {
            Some(token) => auth_token_of(cookies@) == Some(token@),
            None => auth_token_of(cookies@) is None,
        },
{
    let chars = characters(cookies);
    let name = characters("auth_token=");
    let len = chars.len();
    let ghost all = chars@;
    let mut p: usize = 0;
    assert(all.skip(0) =~= all);
    loop
        invariant
            p <= len,
            len == chars@.len(),
            all == chars@,
            all == cookies@,
            name@ == token_cookie_name(),
            auth_token_of(all) == auth_token_of(all.skip(p as int)),
        decreases len - p,
    {
        let ghost rest = all.skip(p as int);
        // the end of this cookie
        let mut q: usize = p;
        while q < len && chars[q] != ';'
            invariant
                p <= q <= len,
                len == chars@.len(),
                all == chars@,
                first_cookie_len(all.skip(p as int)) == (q - p) + first_cookie_len(
                    all.skip(q as int),
                ),
            decreases len - q,
        {
            assert(all.skip(q as int).drop_first() =~= all.skip(q + 1));
            q = q + 1;
        }
        assert(first_cookie_len(rest) == q - p);
        assert(rest.take(q - p) =~= all.subrange(p as int, q as int));
        let ghost cookie = all.subrange(p as int, q as int);
        // the cookie without the white space around it
        let mut a: usize = p;
        while a < q && is_white(chars[a])
            invariant
                p <= a <= q <= len,
                len == chars@.len(),
                all == chars@,
                trim_start(all.subrange(p as int, q as int)) == trim_start(
                    all.subrange(a as int, q as int),
                ),
            decreases q - a,
        {
            assert(all.subrange(a as int, q as int).drop_first() =~= all.subrange(a + 1, q as int));
            a = a + 1;
        }
        assert(trim_start(cookie) == all.subrange(a as int, q as int));
        let mut b: usize = q;
        while b > a && is_white(chars[b - 1])
            invariant
                a <= b <= q <= len,
                len == chars@.len(),
                all == chars@,
                trim_end(all.subrange(a as int, q as int)) == trim_end(
                    all.subrange(a as int, b as int),
                ),
            decreases b,
        {
            assert(all.subrange(a as int, b as int).drop_last() =~= all.subrange(a as int, b - 1));
            b = b - 1;
        }
        assert(trim(cookie) == all.subrange(a as int, b as int));
        if has_prefix_at(&chars, a, b, &name) {
            // the value, after the name as often as it is repeated
            let mut s: usize = a;
            while name.len() > 0 && has_prefix_at(&chars, s, b, &name)
                invariant
                    a <= s <= b <= len,
                    len == chars@.len(),
                    all == chars@,
                    strip_all(all.subrange(a as int, b as int), name@) == strip_all(
                        all.subrange(s as int, b as int),
                        name@,
                    ),
                decreases b - s,
            {
                assert(all.subrange(s as int, b as int).skip(name@.len() as int) =~= all.subrange(
                    s + name@.len(),
                    b as int,
                ));
                s = s + name.len();
            }
            let token = cookies.substring_char(s, b).to_owned();
            return Some(token);
        }
        if q >= len {
            return None;
        }
        assert(rest.skip((q - p) + 1) =~= all.skip(q + 1));
        p = q + 1;
    }
}

} // verus!
