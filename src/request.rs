//! HTTP requests as plain values: what the runner sends, and the rules for
//! the proxy and the headers that go with every request.

use vstd::prelude::*;

verus! {

/// Seconds after which an outbound request is abandoned.
pub const REQUEST_TIMEOUT_SECS: u64 = 20;

/// HTTP method of a request.
#[derive(Clone, Copy, Debug, PartialEq, Eq, Structural)]
pub enum RequestMethod {
    GET,
    POST,
    PATCH,
    DELETE,
}

/// A request to send: method, URL, body, and optional headers, proxy, user
/// agent and cookie.
#[derive(Debug)]
pub struct RequestStructure {
    pub mathod: RequestMethod,
    pub url: String,
    pub content: String,
    pub headers: Option<Vec<(String, String)>>,
    pub proxy: Option<String>,
    pub user_agent: Option<String>,
    pub cookie: Option<String>,
}

/// `s` holds `pat` at position `i`.
pub open spec fn occurs_at(s: Seq<char>, pat: Seq<char>, i: int) -> bool {
    0 <= i && i + pat.len() <= s.len() && s.subrange(i, i + pat.len()) == pat
}

pub open spec fn contains_seq(s: Seq<char>, pat: Seq<char>) -> bool {
    exists|i: int| occurs_at(s, pat, i)
}

/// Whether `s` holds `pat` somewhere.
pub fn contains_str(s: &str, pat: &str) -> (r: bool)
    ensures
        r == contains_seq(s@, pat@),
{
    let n: usize = s.unicode_len();
    let m: usize = pat.unicode_len();
    if m > n {
        proof {
            assert forall|i: int| !occurs_at(s@, pat@, i) by {}
        }
        return false;
    }
    let mut i: usize = 0;
    while i <= n - m
        invariant
            n == s@.len(),
            m == pat@.len(),
            m <= n,
            i <= n - m + 1,
            forall|k: int| 0 <= k < i ==> !occurs_at(s@, pat@, k),
        decreases n - i,
    {
        let mut j: usize = 0;
        let mut same = true;
        while j < m && same
            invariant
                i + m <= n,
                n == s@.len(),
                m == pat@.len(),
                0 <= j <= m,
                same ==> forall|t: int| 0 <= t < j ==> s@[i + t] == pat@[t],
                !same ==> j > 0 && s@[i + j - 1] != pat@[j - 1],
            decreases m - j + if same { 1int } else { 0int },
        {
            if s.get_char(i + j) != pat.get_char(j) {
                same = false;
            }
            j = j + 1;
        }
        if same {
            proof {
                assert(s@.subrange(i as int, i + m) =~= pat@);
                assert(occurs_at(s@, pat@, i as int));
            }
            return true;
        }
        proof {
            assert(s@.subrange(i as int, i + m)[j - 1] != pat@[j - 1]);
        }
        i = i + 1;
    }
    proof {
        assert forall|k: int| !occurs_at(s@, pat@, k) by {
            if 0 <= k && k + m <= n {
                assert(k < i);
            }
        }
    }
    false
}

/// The proxy URL of a proxy setting: one with a scheme as it is, a bare
/// `host:port` as a SOCKS5 proxy.
pub open spec fn proxy_target(p: Seq<char>) -> Seq<char> {
    if contains_seq(p, "://"@) {
        p
    } else {
        "socks5://"@ + p
    }
}

/// The header that advertises compressed transfer encodings.
pub open spec fn encoding_header() -> (Seq<char>, Seq<char>) {
    ("Accept-Encoding"@, "gzip, deflate, br"@)
}

pub open spec fn pairs_view(h: Seq<(String, String)>) -> Seq<(Seq<char>, Seq<char>)> {
    h.map_values(|p: (String, String)| (p.0@, p.1@))
}

impl RequestStructure {
    pub fn new(
        mathod: RequestMethod,
        url: String,
        content: String,
        headers: Option<Vec<(String, String)>>,
        proxy: Option<String>,
        user_agent: Option<String>,
        cookie: Option<String>,
    ) -> (r: Self)
        ensures
            r == (RequestStructure { mathod, url, content, headers, proxy, user_agent, cookie }),
    {
        Self { mathod, url, content, headers, proxy, user_agent, cookie }
    }

    /// A request without headers, proxy, user agent or cookie.
    pub fn new_default(mathod: RequestMethod, url: String, content: String) -> (r: Self)
        ensures
            r == (RequestStructure {
                mathod,
                url,
                content,
                headers: None,
                proxy: None,
                user_agent: None,
                cookie: None,
            }),
    {
        Self { mathod, url, content, headers: None, proxy: None, user_agent: None, cookie: None }
    }

    /// The proxy to send through: none where no proxy, or an empty one, is set.
    pub fn proxy_url(&self) -> (r: Option<String>)
        ensures
            match self.proxy {
                Some(p) if p@.len() > 0 => r is Some && r->0@ == proxy_target(p@),
                _ => r is None,
            },
    {
        match &self.proxy {
            Some(p) => {
                if p.unicode_len() == 0 {
                    None
                } else if contains_str(p.as_str(), "://") {
                    Some(p.clone())
                } else {
                    Some(String::from_str("socks5://").concat(p.as_str()))
                }
            },
            None => None,
        }
    }

    /// The headers to send: the request's own, then its cookie where it has
    /// one, then the header that asks for compressed transfer.
    pub fn send_headers(&self) -> (r: Vec<(String, String)>)
        ensures
            pairs_view(r@) == (match self.headers {
                Some(h) => pairs_view(h@),
                None => Seq::empty(),
            }) + (match self.cookie {
                Some(c) => seq![("cookie"@, c@)],
                None => Seq::empty(),
            }) + seq![encoding_header()],
    {
        let mut out: Vec<(String, String)> = Vec::new();
        match &self.headers {
            Some(h) => {
                let mut i: usize = 0;
                while i < h.len()
                    invariant
                        0 <= i <= h@.len(),
                        pairs_view(out@) =~= pairs_view(h@.take(i as int)),
                    decreases h@.len() - i,
                {
                    let ghost before = out@;
                    let pair = &h[i];
                    out.push((pair.0.clone(), pair.1.clone()));
                    proof {
                        assert(pairs_view(out@) =~= pairs_view(before).push((pair.0@, pair.1@)));
                        assert(h@.take(i + 1) =~= h@.take(i as int).push(h@[i as int]));
                    }
                    i = i + 1;
                }
                proof {
                    assert(h@.take(i as int) =~= h@);
                }
            },
            None => {},
        }
        let ghost own = pairs_view(out@);
        match &self.cookie {
            Some(c) => {
                out.push((String::from_str("cookie"), c.clone()));
            },
            None => {},
        }
        let ghost with_cookie = pairs_view(out@);
        out.push((String::from_str("Accept-Encoding"), String::from_str("gzip, deflate, br")));
        proof {
            assert(pairs_view(out@) =~= with_cookie + seq![encoding_header()]);
            if self.cookie is Some {
                assert(with_cookie =~= own + seq![("cookie"@, self.cookie->0@)]);
            } else {
                assert(with_cookie =~= own + Seq::empty());
            }
        }
        out
    }
}

} // verus!
