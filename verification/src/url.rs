//! URLs, split into protocol, host and path.
//!
//! The view of a [`Url`] is the text it was made from. Its parts are spec
//! functions of that text: a scheme prefix (`https://` or `http://`) selects
//! the protocol, and a text without one counts as `http`; the host runs from
//! behind the prefix to the first `/`, and the path is what is left, that
//! `/` included. Every text has these parts, so no text is rejected.

use crate::text::{chars_of, starts_with, str_eq};
use vstd::prelude::*;
use vstd::std_specs::cmp::PartialEqSpecImpl;
use vstd::string::{StrSliceExecFns, StringExecFns};

verus! {

/// The protocol that a URL's scheme selects.
#[derive(Clone, Copy, Debug, PartialEq, Eq, Hash, Structural)]
pub enum Protocol {
    Http,
    Https,
}

/// The protocol of the URL text `raw`: `Https` where the text begins with
/// `https://`, and `Http` otherwise.
pub open spec fn url_protocol(raw: Seq<char>) -> Protocol {
    if "https://"@.is_prefix_of(raw) {
        Protocol::Https
    } else {
        Protocol::Http
    }
}

/// How many characters of `raw` its scheme prefix takes: all of `https://`
/// or `http://` where the text begins with one of them, none otherwise.
pub open spec fn scheme_len(raw: Seq<char>) -> nat {
    if "https://"@.is_prefix_of(raw) {
        "https://"@.len()
    } else if "http://"@.is_prefix_of(raw) {
        "http://"@.len()
    } else {
        0
    }
}

/// The length of the longest prefix of `s` that holds no `/`.
pub open spec fn authority_len(s: Seq<char>) -> nat
    decreases s.len(),
{
    if s.len() == 0 || s[0] == '/' {
        0
    } else {
        1 + authority_len(s.drop_first())
    }
}

/// The host of the URL text `raw`: what follows the scheme prefix, up to
/// the first `/` or the end of the text.
pub open spec fn url_host(raw: Seq<char>) -> Seq<char> {
    let rest = raw.skip(scheme_len(raw) as int);
    rest.take(authority_len(rest) as int)
}

/// The path of the URL text `raw`: what follows the host, from the first
/// `/` behind the scheme prefix to the end of the text; empty where there
/// is no such `/`.
pub open spec fn url_path(raw: Seq<char>) -> Seq<char> {
    let rest = raw.skip(scheme_len(raw) as int);
    rest.skip(authority_len(rest) as int)
}

/// `authority_len(s)` is the one position that ends a `/`-free prefix of
/// `s` and is either the end of `s` or the place of a `/`.
pub proof fn lemma_authority_len(s: Seq<char>)
    ensures
        authority_len(s) <= s.len(),
        forall|j: int| 0 <= j < authority_len(s) ==> s[j] != '/',
        authority_len(s) < s.len() ==> s[authority_len(s) as int] == '/',
    decreases s.len(),
{
    if s.len() == 0 || s[0] == '/' {
    } else {
        let tail = s.drop_first();
        lemma_authority_len(tail);
        assert forall|j: int| 0 <= j < authority_len(s) implies s[j] != '/' by {
            if j > 0 {
                assert(s[j] == tail[j - 1]);
            }
        }
        if authority_len(s) < s.len() {
            assert(s[authority_len(s) as int] == tail[authority_len(tail) as int]);
        }
    }
}

/// Any position `n` that ends a `/`-free prefix of `s` and is either the
/// end of `s` or the place of a `/` is `authority_len(s)`.
pub proof fn lemma_authority_len_is(s: Seq<char>, n: int)
    requires
        0 <= n <= s.len(),
        forall|j: int| 0 <= j < n ==> s[j] != '/',
        n < s.len() ==> s[n] == '/',
    ensures
        authority_len(s) == n,
    decreases s.len(),
{
    if s.len() == 0 || s[0] == '/' {
    } else {
        let tail = s.drop_first();
        assert forall|j: int| 0 <= j < n - 1 implies tail[j] != '/' by {
            assert(tail[j] == s[j + 1]);
        }
        lemma_authority_len_is(tail, n - 1);
    }
}

/// A URL text is its scheme prefix, its host and its path, one after the
/// other; the host holds no `/`, and the path is empty or begins with one.
pub proof fn lemma_url_parts(raw: Seq<char>)
    ensures
        scheme_len(raw) <= raw.len(),
        raw == raw.take(scheme_len(raw) as int) + url_host(raw) + url_path(raw),
        !url_host(raw).contains('/'),
        url_path(raw).len() == 0 || url_path(raw)[0] == '/',
{
    let rest = raw.skip(scheme_len(raw) as int);
    lemma_authority_len(rest);
    assert(raw =~= raw.take(scheme_len(raw) as int) + url_host(raw) + url_path(raw));
}

/// The scheme prefix that selects `protocol`.
pub open spec fn scheme_prefix(protocol: Protocol) -> Seq<char> {
    match protocol {
        Protocol::Http => "http://"@,
        Protocol::Https => "https://"@,
    }
}

/// A text made of a scheme prefix, a host without `/` and a path that is
/// empty or begins with `/` splits into that protocol, host and path.
pub proof fn lemma_url_of_parts(protocol: Protocol, host: Seq<char>, path: Seq<char>)
    requires
        !host.contains('/'),
        path.len() == 0 || path[0] == '/',
    ensures
        url_protocol(scheme_prefix(protocol) + host + path) == protocol,
        url_host(scheme_prefix(protocol) + host + path) == host,
        url_path(scheme_prefix(protocol) + host + path) == path,
{
    reveal_strlit("https://");
    reveal_strlit("http://");
    let prefix = scheme_prefix(protocol);
    let raw = prefix + host + path;
    assert(prefix =~= raw.subrange(0, prefix.len() as int));
    if protocol == Protocol::Http {
        assert(raw[4] == prefix[4]);
        if "https://"@.is_prefix_of(raw) {
            assert(raw.subrange(0, 8)[4] == 's');
        }
    }
    assert(scheme_len(raw) == prefix.len());
    let rest = raw.skip(prefix.len() as int);
    assert(rest =~= host + path);
    assert forall|j: int| 0 <= j < host.len() implies rest[j] != '/' by {
        assert(host[j] == rest[j]);
    }
    if host.len() < rest.len() {
        assert(rest[host.len() as int] == path[0]);
    }
    lemma_authority_len_is(rest, host.len() as int);
    assert(url_host(raw) =~= host);
    assert(url_path(raw) =~= path);
}

/// A URL: the text it was made from, and that text's protocol, host and
/// path, worked out once when the value is made.
#[derive(Debug)]
pub struct Url {
    raw: String,
    protocol: Protocol,
    host: String,
    path: String,
}

impl View for Url {
    type V = Seq<char>;

    /// The text the URL was made from.
    closed spec fn view(&self) -> Seq<char> {
        self.raw@
    }
}

impl Url {
    /// The stored parts are the parts of the stored text.
    #[verifier::type_invariant]
    spec fn parts_match_text(self) -> bool {
        &&& self.protocol == url_protocol(self.raw@)
        &&& self.host@ == url_host(self.raw@)
        &&& self.path@ == url_path(self.raw@)
    }

    /// Splits `raw` into protocol, host and path. Every text is accepted,
    /// the empty one too.
    pub fn new(raw: &str) -> (url: Url)
        ensures
            url@ == raw@,
    {
        let chars = chars_of(raw);
        let len: usize = chars.len();
        let is_https = starts_with(chars.as_slice(), "https://");
        let is_http = starts_with(chars.as_slice(), "http://");
        proof {
            reveal_strlit("https://");
            reveal_strlit("http://");
        }
        let protocol = if is_https {
            Protocol::Https
        } else {
            Protocol::Http
        };
        let start: usize = if is_https {
            8
        } else if is_http {
            7
        } else {
            0
        };
        let ghost rest = raw@.skip(start as int);
        let mut end: usize = start;
        while end < len && chars[end] != '/'
            invariant
                start <= end <= len,
                len == chars@.len(),
                chars@ == raw@,
                rest == raw@.skip(start as int),
                forall|j: int| 0 <= j < end - start ==> rest[j] != '/',
            decreases len - end,
        {
            end += 1;
        }
        proof {
            lemma_authority_len_is(rest, end - start);
            assert(raw@.subrange(start as int, end as int) =~= url_host(raw@));
            assert(raw@.subrange(end as int, len as int) =~= url_path(raw@));
        }
        let host = String::from_str(raw.substring_char(start, end));
        let path = String::from_str(raw.substring_char(end, len));
        Url { raw: String::from_str(raw), protocol, host, path }
    }

    /// The protocol that the URL's scheme selects.
    pub fn protocol(&self) -> (protocol: Protocol)
        ensures
            protocol == url_protocol(self@),
    {
        proof {
            use_type_invariant(self);
        }
        self.protocol
    }

    /// The URL's host.
    pub fn host(&self) -> (host: String)
        ensures
            host@ == url_host(self@),
    {
        proof {
            use_type_invariant(self);
        }
        self.host.clone()
    }

    /// The URL's path.
    pub fn path(&self) -> (path: String)
        ensures
            path@ == url_path(self@),
    {
        proof {
            use_type_invariant(self);
        }
        self.path.clone()
    }

    /// The text the URL was made from, character for character.
    pub fn to_string(&self) -> (text: String)
        ensures
            text@ == self@,
    {
        self.raw.clone()
    }
}

impl Clone for Url {
    fn clone(&self) -> (url: Self)
        ensures
            url@ == self@,
    {
        proof {
            use_type_invariant(self);
        }
        Url {
            raw: self.raw.clone(),
            protocol: self.protocol,
            host: self.host.clone(),
            path: self.path.clone(),
        }
    }
}

impl PartialEq for Url {
    /// Two URLs are equal where they were made from the same text.
    fn eq(&self, other: &Self) -> (same: bool) {
        str_eq(self.raw.as_str(), other.raw.as_str())
    }
}

impl PartialEqSpecImpl for Url {
    open spec fn obeys_eq_spec() -> bool {
        true
    }

    open spec fn eq_spec(&self, other: &Self) -> bool {
        self@ == other@
    }
}

impl Eq for Url {

}

} // verus!
