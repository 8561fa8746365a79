//! URL-format validation: a submitted target URL must be rejected before any
//! store write is attempted.
//!
//! A URL is well formed when it starts with the scheme `http`, `https` or
//! `ftp` followed by `://`, the first character after the scheme separator is
//! not `.`, `/`, `?`, `#` or whitespace, and no character after the separator
//! is whitespace.

use vstd::prelude::*;

verus! {

/// A structured rejection of a submitted URL; never fatal to the caller.
#[derive(Debug)]
pub struct ValidationError {
    pub field: String,
    pub message: String,
}

/// The whitespace characters the format rule excludes from a URL.
pub open spec fn spec_is_space(c: char) -> bool {
    c == ' ' || c == '\t' || c == '\n' || c == '\r' || c == '\u{000B}' || c == '\u{000C}'
}

/// Length of the scheme prefix (`https://`, `http://` or `ftp://`) that the
/// string starts with, or 0 when it starts with none of the three.
pub open spec fn scheme_prefix_len(s: Seq<char>) -> int {
    if s.len() >= 8 && s[0] == 'h' && s[1] == 't' && s[2] == 't' && s[3] == 'p' && s[4] == 's'
        && s[5] == ':' && s[6] == '/' && s[7] == '/' {
        8
    } else if s.len() >= 7 && s[0] == 'h' && s[1] == 't' && s[2] == 't' && s[3] == 'p'
        && s[4] == ':' && s[5] == '/' && s[6] == '/' {
        7
    } else if s.len() >= 6 && s[0] == 'f' && s[1] == 't' && s[2] == 'p' && s[3] == ':'
        && s[4] == '/' && s[5] == '/' {
        6
    } else {
        0
    }
}

/// The URL-format rule: a scheme prefix, then at least one character; the
/// first character after the prefix is none of `.`, `/`, `?`, `#`, and
/// nothing after the prefix is whitespace.
pub open spec fn valid_url(s: Seq<char>) -> bool {
    let k = scheme_prefix_len(s);
    &&& k > 0
    &&& s.len() > k
    &&& s[k] != '.'
    &&& s[k] != '/'
    &&& s[k] != '?'
    &&& s[k] != '#'
    &&& forall|i: int| k <= i < s.len() ==> !spec_is_space(s[i])
}

fn is_space(c: char) -> (r: bool)
    ensures
        r == spec_is_space(c),
{
    c == ' ' || c == '\t' || c == '\n' || c == '\r' || c == '\u{000B}' || c == '\u{000C}'
}

fn scheme_len(url: &str, n: usize) -> (k: usize)
    requires
        n == url@.len(),
    ensures
        k == scheme_prefix_len(url@),
{
    if n >= 8 && url.get_char(0) == 'h' && url.get_char(1) == 't' && url.get_char(2) == 't'
        && url.get_char(3) == 'p' && url.get_char(4) == 's' && url.get_char(5) == ':'
        && url.get_char(6) == '/' && url.get_char(7) == '/' {
        8
    } else if n >= 7 && url.get_char(0) == 'h' && url.get_char(1) == 't' && url.get_char(2) == 't'
        && url.get_char(3) == 'p' && url.get_char(4) == ':' && url.get_char(5) == '/'
        && url.get_char(6) == '/' {
        7
    } else if n >= 6 && url.get_char(0) == 'f' && url.get_char(1) == 't' && url.get_char(2) == 'p'
        && url.get_char(3) == ':' && url.get_char(4) == '/' && url.get_char(5) == '/' {
        6
    } else {
        0
    }
}

/// Checks a submitted URL against the format rule; passes exactly on well
/// formed URLs and otherwise reports the offending field with a fixed
/// message.
pub fn validate(url: &str) -> (r: Result<(), ValidationError>)
    ensures
        r is Ok <==> valid_url(url@),
        r is Err ==> r->Err_0.field@ == "url"@ && r->Err_0.message@ == "Url is not valid"@,
{
    let n = url.unicode_len();
    let k = scheme_len(url, n);
    if k == 0 || n <= k {
        return Err(url_error());
    }
    let first = url.get_char(k);
    if first == '.' || first == '/' || first == '?' || first == '#' {
        return Err(url_error());
    }
    let mut i: usize = k;
    while i < n
        invariant
            k <= i <= n,
            n == url@.len(),
            forall|j: int| k <= j < i ==> !spec_is_space(url@[j]),
        decreases n - i,
    {
        if is_space(url.get_char(i)) {
            return Err(url_error());
        }
        i = i + 1;
    }
    Ok(())
}

fn url_error() -> (e: ValidationError)
    ensures
        e.field@ == "url"@,
        e.message@ == "Url is not valid"@,
{
    ValidationError { field: String::from_str("url"), message: String::from_str("Url is not valid") }
}

} // verus!
