//! URL normalization.
//!
//! Deduplication is only as good as the canonical form that is compared.
//! [`normalize`] is conservative: it never touches the case of the path and
//! never decodes an escape.

use vstd::prelude::*;

use crate::text::{chars_of, text_between};
use crate::weburl::{self, Url, UrlView};

verus! {

/// Whether the port is the default of the scheme, spelled out.
pub open spec fn spells_default_port(u: UrlView) -> bool {
    ||| u.scheme == "http"@ && u.port == Some(80u16)
    ||| u.scheme == "https"@ && u.port == Some(443u16)
}

/// The canonical form of a URL: no fragment, a path, no empty query, and no
/// default port.
pub open spec fn normalized(u: UrlView) -> UrlView {
    let bare = u.without_fragment();
    let rooted = if bare.path.len() == 0 {
        bare.at_root()
    } else {
        bare
    };
    let queried = if rooted.query == Some(Seq::<char>::empty()) {
        rooted.without_query()
    } else {
        rooted
    };
    if spells_default_port(queried) {
        queried.without_port()
    } else {
        queried
    }
}

/// Remove the spaces at the end of `s`.
fn drop_trailing_blanks(s: &String) -> (r: String)
    ensures
        r@ == weburl::without_trailing_blanks(s@),
{
    let chars = chars_of(s.as_str());
    let mut to: usize = chars.len();
    proof {
        assert(s@.take(to as int) =~= s@);
    }
    while to > 0 && chars[to - 1] == ' '
        invariant
            to <= chars@.len(),
            chars@ == s@,
            weburl::without_trailing_blanks(s@) == weburl::without_trailing_blanks(
                s@.take(to as int),
            ),
        decreases to,
    {
        proof {
            assert(s@.take(to as int).drop_last() =~= s@.take(to - 1));
        }
        to -= 1;
    }
    let r = text_between(&chars, 0, to);
    proof {
        assert(s@.take(to as int) =~= s@.subrange(0, to as int));
    }
    r
}

fn starts_with_slash(s: &String) -> (r: bool)
    ensures
        r == (s@.len() > 0 && s@[0] == '/'),
{
    let chars = chars_of(s.as_str());
    chars.len() > 0 && chars[0] == '/'
}

impl Url {
    /// Whether the scheme is `http` or `https`.
    pub fn is_web(&self) -> (r: bool)
        ensures
            r == self@.is_web(),
    {
        *self.scheme.as_str() == *"http" || *self.scheme.as_str() == *"https"
    }

    /// Whether nothing but an unstructured path follows the scheme.
    pub fn is_opaque(&self) -> (r: bool)
        ensures
            r == self@.is_opaque(),
    {
        !self.authority && self.lead.as_str().is_empty() && !starts_with_slash(&self.path)
    }

    /// The port the URL names, or else the one its scheme is known to use.
    pub fn known_port(&self) -> (r: Option<u16>)
        ensures
            r == self@.known_port(),
    {
        if self.port.is_some() {
            self.port
        } else if *self.scheme.as_str() == *"http" || *self.scheme.as_str() == *"ws" {
            Some(80)
        } else if *self.scheme.as_str() == *"https" || *self.scheme.as_str() == *"wss" {
            Some(443)
        } else if *self.scheme.as_str() == *"ftp" {
            Some(21)
        } else {
            None
        }
    }

    fn tidy(&mut self)
        ensures
            final(self)@ == old(self)@.tidied(),
    {
        if self.is_opaque() && self.query.is_none() && self.fragment.is_none() {
            let path = drop_trailing_blanks(&self.path);
            self.path = path;
        }
    }

    /// Remove the fragment.
    pub fn drop_fragment(&mut self)
        ensures
            final(self)@ == old(self)@.without_fragment(),
    {
        self.fragment = None;
        self.tidy();
    }

    /// Remove the query.
    pub fn drop_query(&mut self)
        ensures
            final(self)@ == old(self)@.without_query(),
    {
        self.query = None;
        self.tidy();
    }

    /// Set the path to `/`.
    pub fn go_to_root(&mut self)
        ensures
            final(self)@ == old(self)@.at_root(),
    {
        proof {
            reveal_strlit("%2F");
            reveal_strlit("/");
        }
        self.path = if self.is_opaque() {
            "%2F".to_owned()
        } else {
            "/".to_owned()
        };
        proof {
            assert(self@.path =~= old(self)@.at_root().path);
        }
    }

    /// Remove the port, where the URL can have one.
    pub fn drop_port(&mut self)
        ensures
            final(self)@ == old(self)@.without_port(),
    {
        let hosted = match &self.host {
            Some(h) => !h.as_str().is_empty(),
            None => false,
        };
        if hosted && !(*self.scheme.as_str() == *"file") {
            self.port = None;
        }
    }
}

/// Produce a canonical form of `url` suitable for deduplication.
///
/// The fragment never reaches the server and is dropped; an empty path becomes
/// `/`; a `?` with nothing behind it goes; a default port that is spelled out
/// goes. Query strings stay as they are, since many sites route on them.
pub fn normalize(url: Url) -> (r: Url)
    ensures
        r@ == normalized(url@),
        url@.wf() ==> r@.wf(),
{
    proof {
        normalized_is_well_formed(url@);
    }
    let mut url = url;
    url.drop_fragment();
    if url.path.as_str().is_empty() {
        url.go_to_root();
    }
    let empty_query = match &url.query {
        Some(q) => q.as_str().is_empty(),
        None => false,
    };
    proof {
        assert(empty_query <==> url@.query == Some(Seq::<char>::empty())) by {
            if url@.query is Some && url@.query->0.len() == 0 {
                assert(url@.query->0 =~= Seq::<char>::empty());
            }
        }
    }
    if empty_query {
        url.drop_query();
    }
    let spelled = match url.port {
        Some(p) => (p == 80 && *url.scheme.as_str() == *"http") || (p == 443
            && *url.scheme.as_str() == *"https"),
        None => false,
    };
    if spelled {
        url.drop_port();
    }
    url
}

proof fn blanks_gone(s: Seq<char>)
    ensures
        weburl::without_trailing_blanks(weburl::without_trailing_blanks(s))
            == weburl::without_trailing_blanks(s),
        ({
            let t = weburl::without_trailing_blanks(s);
            t.len() > 0 ==> s.len() > 0 && t[0] == s[0]
        }),
    decreases s.len(),
{
    if s.len() > 0 && s.last() == ' ' {
        blanks_gone(s.drop_last());
    }
}

/// Normalizing keeps a URL well-formed.
proof fn normalized_is_well_formed(u: UrlView)
    ensures
        u.wf() ==> normalized(u).wf(),
{
}

/// Every `http` or `https` URL has one canonical form: normalizing it again
/// changes nothing, whatever fragment is set on it makes no difference, and the
/// form has neither a fragment, nor an empty path, nor an empty query, nor a
/// default port that is spelled out. Scheme, host, a path and a query are kept.
pub proof fn web_urls_have_one_canonical_form(u: UrlView, fragment: Option<Seq<char>>)
    requires
        u.wf(),
        u.is_web(),
    ensures
        ({
            let n = normalized(u);
            let v = UrlView { fragment, ..u };
            &&& normalized(n) == n
            &&& normalized(v) == n
            &&& n.wf()
            &&& n.is_web()
            &&& n.fragment is None
            &&& n.path.len() > 0
            &&& n.query != Some(Seq::<char>::empty())
            &&& !spells_default_port(n)
            &&& n.scheme == u.scheme
            &&& n.host == u.host
            &&& u.path.len() > 0 ==> n.path == u.path
            &&& u.query is Some && u.query->0.len() > 0 ==> n.query == u.query
        }),
{
    let v = UrlView { fragment, ..u };
    normalized_twice(u);
    normalized_is_canonical(u);
    normalized_keeps_the_rest(u);
    normalized_is_well_formed(u);
    fragments_do_not_count(v, u);
}

/// Normalizing twice is normalizing once.
///
/// Left out are URLs whose unstructured path is nothing but spaces before an
/// empty query: removing the query removes the spaces, and only a second round
/// sees the path that is then empty.
pub proof fn normalized_twice(u: UrlView)
    requires
        !(u.is_opaque() && u.query == Some(Seq::<char>::empty()) && u.path.len() > 0
            && weburl::without_trailing_blanks(u.path).len() == 0),
    ensures
        normalized(normalized(u)) == normalized(u),
{
    blanks_gone(u.path);
    assert(weburl::without_trailing_blanks(seq!['%', '2', 'F']) == seq!['%', '2', 'F']);
}

/// The canonical form of a URL with a host has neither a fragment, nor an
/// empty path, nor an empty query, nor a default port that is spelled out.
pub proof fn normalized_is_canonical(u: UrlView)
    requires
        u.authority,
        u.host is Some,
        u.host->0.len() > 0,
    ensures
        ({
            let n = normalized(u);
            &&& n.fragment is None
            &&& n.path.len() > 0
            &&& n.query != Some(Seq::<char>::empty())
            &&& !spells_default_port(n)
        }),
{
    reveal_strlit("http");
    reveal_strlit("https");
    reveal_strlit("file");
    assert("http"@[0] != "file"@[0]);
    assert("https"@[0] != "file"@[0]);
}

/// Normalizing keeps scheme, user, host, a non-empty path and a non-empty
/// query as they are.
pub proof fn normalized_keeps_the_rest(u: UrlView)
    requires
        !u.is_opaque(),
    ensures
        ({
            let n = normalized(u);
            &&& n.scheme == u.scheme
            &&& n.authority == u.authority
            &&& n.username == u.username
            &&& n.password == u.password
            &&& n.host == u.host
            &&& u.path.len() > 0 ==> n.path == u.path
            &&& u.query is Some && u.query->0.len() > 0 ==> n.query == u.query
        }),
{
}

/// Two URLs that differ in nothing but the fragment have the same canonical
/// form.
pub proof fn fragments_do_not_count(a: UrlView, b: UrlView)
    requires
        a == (UrlView { fragment: a.fragment, ..b }),
    ensures
        normalized(a) == normalized(b),
{
}

/// What normalizing does to an `http` or `https` URL, part by part: the
/// fragment goes; an empty path becomes `/`; an empty query goes; port 80 of
/// `http` and port 443 of `https` go; and everything else stays, every other
/// port and every other path and query among it.
pub proof fn normalizing_goes_part_by_part(u: UrlView)
    requires
        u.wf(),
        u.is_web(),
    ensures
        ({
            let n = normalized(u);
            &&& n.scheme == u.scheme
            &&& n.authority
            &&& n.username == u.username
            &&& n.password == u.password
            &&& n.host == u.host
            &&& n.lead == u.lead
            &&& n.port == if u.port == Some(80u16) && u.scheme == "http"@ || u.port == Some(443u16)
                && u.scheme == "https"@ {
                None
            } else {
                u.port
            }
            &&& n.path == if u.path.len() == 0 {
                "/"@
            } else {
                u.path
            }
            &&& n.query == if u.query is Some && u.query->0.len() == 0 {
                None
            } else {
                u.query
            }
            &&& n.fragment is None
        }),
{
    reveal_strlit("/");
    reveal_strlit("http");
    reveal_strlit("https");
    reveal_strlit("file");
    assert("/"@ =~= seq!['/']);
    assert("http"@[0] != "file"@[0]);
    assert("https"@[0] != "file"@[0]);
    if u.query is Some && u.query->0.len() == 0 {
        assert(u.query->0 =~= Seq::<char>::empty());
    }
}

/// Two `http` or `https` URLs that are taken for one differ in nothing but the
/// fragment, an empty path or query, and a port that is spelled out.
pub proof fn what_is_taken_for_one_is_one(u: UrlView, v: UrlView)
    requires
        u.wf(),
        u.is_web(),
        v.wf(),
        v.is_web(),
        normalized(u) == normalized(v),
    ensures
        u.scheme == v.scheme,
        u.host == v.host,
        u.username == v.username,
        u.password == v.password,
        u.known_port() == v.known_port(),
        u.path.len() > 0 && v.path.len() > 0 ==> u.path == v.path,
        u.query is Some && u.query->0.len() > 0 ==> v.query == u.query,
{
    normalizing_goes_part_by_part(u);
    normalizing_goes_part_by_part(v);
    weburl::schemes_have_their_ports(u);
    weburl::schemes_have_their_ports(v);
    reveal_strlit("http");
    reveal_strlit("https");
    assert("http"@.len() == 4 && "https"@.len() == 5);
}

} // verus!
